//! The capture of sound.

use mague_rc::audio::ffmpeg::{queue_warning_due, CaptureEnd, CaptureStep, FrameBuffer};
use mague_rc::audio::{pcm_chunk_size, AudioError, FfmpegAudioSource, QueueCounter};
use mague_rc::config::AudioConfig;

fn config() -> AudioConfig {
    AudioConfig {
        ffmpeg_bin: "/bin/true".to_owned(),
        input_format: "pulse".to_owned(),
        source: "unused".to_owned(),
        chunk_ms: 100,
        queue_max: 0,
    }
}

#[test]
fn calculates_default_pcm_chunk_size() {
    let size = pcm_chunk_size(16_000, 1, 100).expect("default values must be valid");

    assert_eq!(size, 3_200);
}

#[test]
fn accounts_for_multiple_channels() {
    let size = pcm_chunk_size(48_000, 2, 20).expect("audio shape must be valid");

    assert_eq!(size, 3_840);
}

#[test]
fn rejects_zero_sized_chunk() {
    let error = pcm_chunk_size(0, 1, 100).expect_err("zero sample rate must fail");

    assert!(matches!(error, AudioError::InvalidChunkSize(_)));
}

#[test]
fn a_chunk_that_does_not_fit_is_refused() {
    assert!(pcm_chunk_size(u32::MAX, u16::MAX, u64::MAX).is_err());
}

#[test]
fn file_source_stops_after_successful_eof() {
    let source = FfmpegAudioSource::from_file(config(), 16_000, 1, "fixture.wav".to_owned());
    assert_eq!(source.executable(), "/bin/true");
    assert!(source.arguments().iter().any(|argument| argument == "fixture.wav"));
    assert!(matches!(
        source.after_capture(CaptureEnd::Exited { success: true, status: "exit status: 0".to_owned() }),
        CaptureStep::Finish
    ));
    assert!(matches!(
        source.after_capture(CaptureEnd::Shutdown),
        CaptureStep::Finish
    ));
}

#[test]
fn a_live_source_names_its_device() {
    let source = FfmpegAudioSource::new(config(), 16_000, 1);
    let arguments = source.arguments();
    assert!(arguments.iter().any(|argument| argument == "pulse"));
    assert!(arguments.iter().any(|argument| argument == "unused"));
    assert!(arguments.iter().any(|argument| argument == "16000"));
    assert_eq!(source.frame_bytes().unwrap(), 3_200);
    assert!(!matches!(
        source.after_capture(CaptureEnd::Exited { success: true, status: "exit status: 0".to_owned() }),
        CaptureStep::Finish
    ));
}

#[test]
fn frames_are_numbered_in_order() {
    let mut source = FfmpegAudioSource::new(config(), 16_000, 1);
    assert_eq!(source.next_frame(vec![1]).sequence, 0);
    let second = source.next_frame(vec![2]);
    assert_eq!(second.sequence, 1);
    assert_eq!(second.pcm, vec![2]);
}

#[test]
fn bytes_are_cut_into_frames() {
    let mut buffer = FrameBuffer::new(4);
    assert_eq!(buffer.missing(), 4);
    assert_eq!(buffer.fill(&vec![1, 2, 3]), None);
    assert_eq!(buffer.partial_bytes(), 3);
    assert_eq!(buffer.missing(), 1);
    assert_eq!(buffer.fill(&vec![4]), Some(vec![1, 2, 3, 4]));
    assert_eq!(buffer.partial_bytes(), 0);
}

#[test]
fn a_bounded_queue_knows_when_it_is_full() {
    let mut queue = QueueCounter::new(2);
    assert!(queue.is_empty());
    assert_eq!(queue.maximum(), Some(2));
    queue.reserve();
    assert!(!queue.is_full());
    queue.reserve();
    assert_eq!(queue.len(), 2);
    assert!(queue.is_full());
    queue.release();
    assert!(!queue.is_full());

    let mut unbounded = QueueCounter::new(0);
    unbounded.reserve();
    assert_eq!(unbounded.maximum(), None);
    assert!(!unbounded.is_full());
}

#[test]
fn a_growing_queue_is_warned_of_in_steps() {
    assert!(!queue_warning_due(99, 0, false));
    assert!(queue_warning_due(100, 0, false));
    assert!(!queue_warning_due(150, 100, false));
    assert!(queue_warning_due(200, 100, false));
    assert!(queue_warning_due(3, 0, true));
    assert!(!queue_warning_due(101, 100, true));
}

#[test]
fn a_failed_playback_is_an_error() {
    let source = FfmpegAudioSource::from_file(config(), 16_000, 1, "fixture.wav".to_owned());
    assert!(matches!(
        source.after_capture(CaptureEnd::Exited {
            success: false,
            status: "exit status: 1".to_owned(),
        }),
        CaptureStep::Fail(AudioError::FilePlayback(_))
    ));
}

#[test]
fn audio_errors_say_what_failed() {
    assert!(AudioError::Spawn {
        executable: "ffmpeg".to_owned(),
        source: "no such file".to_owned(),
    }
    .message()
    .contains("no such file"));
    assert!(AudioError::MissingPipe { stream: "stdout".to_owned() }
        .message()
        .contains("stdout"));
    assert!(AudioError::Read("broken".to_owned()).message().contains("broken"));
    assert!(AudioError::Wait("broken".to_owned()).message().contains("broken"));
    assert!(AudioError::FilePlayback("exit status: 1".to_owned())
        .message()
        .contains("exit status: 1"));
}
