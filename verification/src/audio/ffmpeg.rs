//! Captures sound with `ffmpeg`: how it is called, how its output becomes
//! frames, and when it is started again.
use vstd::prelude::*;

use crate::config::assistant::{AudioConfig, AudioConfigModel};
use crate::events::AudioFrame;
use crate::text::{decimal, decimal_text, views};

verus! {

/// The bytes of one sample of one channel.
pub const BYTES_PER_SAMPLE: u64 = 2;

/// The seconds before a capture that has ended is started again.
pub const RESTART_DELAY_SECS: u64 = 2;

/// The seconds in which `ffmpeg` has to stop.
pub const CHILD_STOP_TIMEOUT_SECS: u64 = 3;

/// By how many frames the queue has to grow before it is warned of again.
pub const QUEUE_WARNING_STEP: usize = 100;

/// Why no sound is captured.
#[derive(Debug, PartialEq, Eq)]
pub enum AudioError {
    /// The settings give no usable size of a frame.
    InvalidChunkSize(String),
    /// The program could not be started.
    Spawn {
        executable: String,
        source: String,
    },
    /// The program has no such output.
    MissingPipe {
        stream: String,
    },
    /// The output could not be read.
    Read(String),
    /// The end of the program could not be waited for.
    Wait(String),
    /// The program did not stop in time.
    StopTimeout,
    /// Nobody takes the frames.
    ChannelClosed,
    /// The recogniser was gone before playback.
    SttReadinessClosed,
    /// The playback of a file failed.
    FilePlayback(String),
}

/// The value of a [`AudioError`].
#[verifier::ext_equal]
pub enum AudioErrorModel {
    InvalidChunkSize(Seq<char>),
    Spawn {
        executable: Seq<char>,
        source: Seq<char>,
    },
    MissingPipe {
        stream: Seq<char>,
    },
    Read(Seq<char>),
    Wait(Seq<char>),
    StopTimeout,
    ChannelClosed,
    SttReadinessClosed,
    FilePlayback(Seq<char>),
}

impl View for AudioError {
    type V = AudioErrorModel;

    open spec fn view(&self) -> AudioErrorModel {
        match *self {
            AudioError::InvalidChunkSize(inner) => AudioErrorModel::InvalidChunkSize(inner@),
            AudioError::Spawn { executable, source } => AudioErrorModel::Spawn {
                executable: executable@,
                source: source@,
            },
            AudioError::MissingPipe { stream } => AudioErrorModel::MissingPipe {
                stream: stream@,
            },
            AudioError::Read(inner) => AudioErrorModel::Read(inner@),
            AudioError::Wait(inner) => AudioErrorModel::Wait(inner@),
            AudioError::StopTimeout => AudioErrorModel::StopTimeout,
            AudioError::ChannelClosed => AudioErrorModel::ChannelClosed,
            AudioError::SttReadinessClosed => AudioErrorModel::SttReadinessClosed,
            AudioError::FilePlayback(inner) => AudioErrorModel::FilePlayback(inner@),
        }
    }
}

impl Clone for AudioError {
    fn clone(&self) -> (r: Self)
        ensures
            r@ == self@,
    {
        match self {
            AudioError::InvalidChunkSize(inner) => AudioError::InvalidChunkSize(inner.clone()),
            AudioError::Spawn { executable, source } => AudioError::Spawn {
                executable: executable.clone(),
                source: source.clone(),
            },
            AudioError::MissingPipe { stream } => AudioError::MissingPipe {
                stream: stream.clone(),
            },
            AudioError::Read(inner) => AudioError::Read(inner.clone()),
            AudioError::Wait(inner) => AudioError::Wait(inner.clone()),
            AudioError::StopTimeout => AudioError::StopTimeout,
            AudioError::ChannelClosed => AudioError::ChannelClosed,
            AudioError::SttReadinessClosed => AudioError::SttReadinessClosed,
            AudioError::FilePlayback(inner) => AudioError::FilePlayback(inner.clone()),
        }
    }
}

impl AudioErrorModel {
    /// The failure in words.
    pub open spec fn words(self) -> Seq<char> {
        match self {
            AudioErrorModel::InvalidChunkSize(p) => "invalid PCM chunk size: "@ + p,
            AudioErrorModel::Spawn { executable, source } => "failed to start ffmpeg executable "@ + executable + ": "@ + source,
            AudioErrorModel::MissingPipe { stream } => "ffmpeg "@ + stream + " pipe was not available"@,
            AudioErrorModel::Read(p) => "failed to read ffmpeg audio output: "@ + p,
            AudioErrorModel::Wait(p) => "failed to wait for ffmpeg: "@ + p,
            AudioErrorModel::StopTimeout => "ffmpeg did not stop within 3 seconds"@,
            AudioErrorModel::ChannelClosed => "audio frame channel closed"@,
            AudioErrorModel::SttReadinessClosed => "STT worker stopped before benchmark audio playback could start"@,
            AudioErrorModel::FilePlayback(p) => "ffmpeg file playback exited with status "@ + p,
        }
    }
}

impl AudioError {
    /// The failure in words.
    pub fn message(&self) -> (r: String)
        ensures
            r@ == self@.words(),
    {
        match self {
            AudioError::InvalidChunkSize(p) => {
                let mut out = "invalid PCM chunk size: ".to_owned();
                out.append(p.as_str());
                out
            },
            AudioError::Spawn { executable, source } => {
                let mut out = "failed to start ffmpeg executable ".to_owned();
                out.append(executable.as_str());
                out.append(": ");
                out.append(source.as_str());
                out
            },
            AudioError::MissingPipe { stream } => {
                let mut out = "ffmpeg ".to_owned();
                out.append(stream.as_str());
                out.append(" pipe was not available");
                out
            },
            AudioError::Read(p) => {
                let mut out = "failed to read ffmpeg audio output: ".to_owned();
                out.append(p.as_str());
                out
            },
            AudioError::Wait(p) => {
                let mut out = "failed to wait for ffmpeg: ".to_owned();
                out.append(p.as_str());
                out
            },
            AudioError::StopTimeout => {
                let out = "ffmpeg did not stop within 3 seconds".to_owned();
                out
            },
            AudioError::ChannelClosed => {
                let out = "audio frame channel closed".to_owned();
                out
            },
            AudioError::SttReadinessClosed => {
                let out = "STT worker stopped before benchmark audio playback could start".to_owned();
                out
            },
            AudioError::FilePlayback(p) => {
                let mut out = "ffmpeg file playback exited with status ".to_owned();
                out.append(p.as_str());
                out
            },
        }
    }
}

/// The bytes of a frame of so many milliseconds, or why there is no such
/// frame.
pub open spec fn chunk_size(sample_rate: u32, channels: u16, chunk_ms: u64) -> Result<
    usize,
    Seq<char>,
> {
    let product = sample_rate * channels * BYTES_PER_SAMPLE * chunk_ms;
    let bytes = product / 1000;
    if product > u64::MAX {
        Err("calculation overflowed"@)
    } else if bytes == 0 {
        Err("calculation produced zero bytes"@)
    } else if bytes > usize::MAX {
        Err("does not fit in usize"@)
    } else {
        Ok(bytes as usize)
    }
}

/// The bytes of a frame of so many milliseconds.
pub fn pcm_chunk_size(sample_rate: u32, channels: u16, chunk_ms: u64) -> (r: Result<
    usize,
    AudioError,
>)
    ensures
        match r {
            Ok(bytes) => chunk_size(sample_rate, channels, chunk_ms) == Ok::<usize, Seq<char>>(
                bytes,
            ),
            Err(error) => chunk_size(sample_rate, channels, chunk_ms) is Err && error@
                == AudioErrorModel::InvalidChunkSize(
                chunk_size(sample_rate, channels, chunk_ms)->Err_0,
            ),
        },
{
    assert(sample_rate * channels <= u32::MAX * u16::MAX) by (nonlinear_arith)
        requires
            sample_rate <= u32::MAX,
            channels <= u16::MAX,
            0 <= sample_rate,
            0 <= channels,
    ;
    let frame_rate: u64 = sample_rate as u64 * channels as u64;
    let rate: u64 = frame_rate * BYTES_PER_SAMPLE;
    assert(rate * chunk_ms <= u64::MAX * u64::MAX) by (nonlinear_arith)
        requires
            0 <= rate <= u64::MAX,
            0 <= chunk_ms <= u64::MAX,
    ;
    let product: u128 = rate as u128 * chunk_ms as u128;
    if product > u64::MAX as u128 {
        return Err(AudioError::InvalidChunkSize("calculation overflowed".to_owned()));
    }
    let bytes: u64 = product as u64 / 1_000;
    if bytes == 0 {
        return Err(AudioError::InvalidChunkSize("calculation produced zero bytes".to_owned()));
    }
    if bytes > usize::MAX as u64 {
        return Err(AudioError::InvalidChunkSize("does not fit in usize".to_owned()));
    }
    Ok(bytes as usize)
}

/// Where the sound comes from.
#[derive(Debug)]
pub enum FfmpegInput {
    /// A source that goes on for ever.
    Live,
    /// A file.
    File(String),
}

/// A capture of sound.
pub struct FfmpegAudioSource {
    config: AudioConfig,
    input: FfmpegInput,
    sample_rate: u32,
    channels: u16,
    next_sequence: u64,
}

/// The value of a [`FfmpegAudioSource`].
#[verifier::ext_equal]
pub struct SourceModel {
    pub config: AudioConfigModel,
    /// The file, where the sound comes from one.
    pub file: Option<Seq<char>>,
    pub sample_rate: u32,
    pub channels: u16,
    pub next_sequence: u64,
}

impl View for FfmpegAudioSource {
    type V = SourceModel;

    closed spec fn view(&self) -> SourceModel {
        SourceModel {
            config: self.config@,
            file: match self.input {
                FfmpegInput::Live => None,
                FfmpegInput::File(path) => Some(path@),
            },
            sample_rate: self.sample_rate,
            channels: self.channels,
            next_sequence: self.next_sequence,
        }
    }
}

/// What `ffmpeg` is told of its input.
pub open spec fn input_arguments(s: SourceModel) -> Seq<Seq<char>> {
    match s.file {
        None => seq!["-f"@, s.config.input_format, "-i"@, s.config.source],
        Some(path) => seq!["-re"@, "-i"@, path, "-af"@, "apad=pad_dur=2"@],
    }
}

/// What `ffmpeg` is told.
pub open spec fn ffmpeg_arguments(s: SourceModel) -> Seq<Seq<char>> {
    seq!["-hide_banner"@, "-loglevel"@, "error"@] + input_arguments(s) + seq![
        "-ac"@,
        decimal(s.channels as nat),
        "-ar"@,
        decimal(s.sample_rate as nat),
        "-f"@,
        "s16le"@,
        "pipe:1"@,
    ]
}

/// How a capture ended.
#[derive(Debug)]
pub enum CaptureEnd {
    /// It was asked to stop.
    Shutdown,
    /// `ffmpeg` ended, with success or not, with the given status.
    Exited { success: bool, status: String },
    /// It failed.
    Failed(AudioError),
}

/// What is done when a capture has ended.
#[derive(Debug)]
pub enum CaptureStep {
    /// All is done.
    Finish,
    /// The capture cannot go on.
    Fail(AudioError),
    /// It is started again after a while.
    Restart,
}

/// The value of a [`CaptureStep`].
pub enum CaptureStepModel {
    Finish,
    Fail(AudioErrorModel),
    Restart,
}

impl View for CaptureStep {
    type V = CaptureStepModel;

    open spec fn view(&self) -> CaptureStepModel {
        match *self {
            CaptureStep::Finish => CaptureStepModel::Finish,
            CaptureStep::Fail(error) => CaptureStepModel::Fail(error@),
            CaptureStep::Restart => CaptureStepModel::Restart,
        }
    }
}

/// What is done when a capture has ended: a file is played once, and a live
/// source is captured again.
pub open spec fn capture_step(from_file: bool, end: CaptureEnd) -> CaptureStepModel {
    match end {
        CaptureEnd::Shutdown => CaptureStepModel::Finish,
        CaptureEnd::Exited { success, status } => if !from_file {
            CaptureStepModel::Restart
        } else if success {
            CaptureStepModel::Finish
        } else {
            CaptureStepModel::Fail(AudioErrorModel::FilePlayback(status@))
        },
        CaptureEnd::Failed(error) => if error@ == AudioErrorModel::ChannelClosed {
            CaptureStepModel::Fail(AudioErrorModel::ChannelClosed)
        } else {
            CaptureStepModel::Restart
        },
    }
}

fn add_argument(arguments: &mut Vec<String>, argument: &str)
    ensures
        views(final(arguments)@) == views(old(arguments)@).push(argument@),
{
    let ghost before = views(arguments@);
    arguments.push(argument.to_owned());
    assert(views(arguments@) =~= before.push(argument@));
}

impl FfmpegAudioSource {
    /// A capture of the configured source.
    pub fn new(config: AudioConfig, sample_rate: u32, channels: u16) -> (r: Self)
        ensures
            r@ == (SourceModel {
                config: config@,
                file: None,
                sample_rate,
                channels,
                next_sequence: 0,
            }),
    {
        FfmpegAudioSource {
            config,
            input: FfmpegInput::Live,
            sample_rate,
            channels,
            next_sequence: 0,
        }
    }

    /// The playback of a file.
    pub fn from_file(config: AudioConfig, sample_rate: u32, channels: u16, path: String) -> (r: Self)
        ensures
            r@ == (SourceModel {
                config: config@,
                file: Some(path@),
                sample_rate,
                channels,
                next_sequence: 0,
            }),
    {
        FfmpegAudioSource {
            config,
            input: FfmpegInput::File(path),
            sample_rate,
            channels,
            next_sequence: 0,
        }
    }

    /// The program to start.
    pub fn executable(&self) -> (r: &str)
        ensures
            r@ == self@.config.ffmpeg_bin,
    {
        self.config.ffmpeg_bin.as_str()
    }

    /// What the program is told.
    pub fn arguments(&self) -> (r: Vec<String>)
        ensures
            views(r@) == ffmpeg_arguments(self@),
    {
        let mut out: Vec<String> = Vec::new();
        add_argument(&mut out, "-hide_banner");
        add_argument(&mut out, "-loglevel");
        add_argument(&mut out, "error");
        match &self.input {
            FfmpegInput::Live => {
                add_argument(&mut out, "-f");
                add_argument(&mut out, self.config.input_format.as_str());
                add_argument(&mut out, "-i");
                add_argument(&mut out, self.config.source.as_str());
            },
            FfmpegInput::File(path) => {
                add_argument(&mut out, "-re");
                add_argument(&mut out, "-i");
                add_argument(&mut out, path.as_str());
                add_argument(&mut out, "-af");
                add_argument(&mut out, "apad=pad_dur=2");
            },
        }
        add_argument(&mut out, "-ac");
        add_argument(&mut out, decimal_text(self.channels as u64).as_str());
        add_argument(&mut out, "-ar");
        add_argument(&mut out, decimal_text(self.sample_rate as u64).as_str());
        add_argument(&mut out, "-f");
        add_argument(&mut out, "s16le");
        add_argument(&mut out, "pipe:1");
        assert(views(out@) =~= ffmpeg_arguments(self@));
        out
    }

    /// What the sound comes from, in words.
    pub fn input_description(&self) -> (r: String)
        ensures
            r@ == match self@.file {
                Some(path) => path,
                None => self@.config.source,
            },
    {
        match &self.input {
            FfmpegInput::Live => self.config.source.clone(),
            FfmpegInput::File(path) => path.clone(),
        }
    }

    /// The bytes of a frame.
    pub fn frame_bytes(&self) -> (r: Result<usize, AudioError>)
        ensures
            match r {
                Ok(bytes) => chunk_size(
                    self@.sample_rate,
                    self@.channels,
                    self@.config.chunk_ms,
                ) == Ok::<usize, Seq<char>>(bytes),
                Err(error) => chunk_size(
                    self@.sample_rate,
                    self@.channels,
                    self@.config.chunk_ms,
                ) is Err && error@ == AudioErrorModel::InvalidChunkSize(
                    chunk_size(
                        self@.sample_rate,
                        self@.channels,
                        self@.config.chunk_ms,
                    )->Err_0,
                ),
            },
    {
        pcm_chunk_size(self.sample_rate, self.channels, self.config.chunk_ms)
    }

    /// The next frame, of the given bytes.
    pub fn next_frame(&mut self, pcm: Vec<u8>) -> (r: AudioFrame)
        ensures
            r.sequence == old(self)@.next_sequence,
            r.pcm == pcm,
            final(self)@ == (SourceModel {
                next_sequence: if old(self)@.next_sequence == u64::MAX {
                    0
                } else {
                    (old(self)@.next_sequence + 1) as u64
                },
                ..old(self)@
            }),
    {
        let frame = AudioFrame { sequence: self.next_sequence, pcm };
        self.next_sequence = self.next_sequence.wrapping_add(1);
        frame
    }

    /// What is done when a capture has ended.
    pub fn after_capture(&self, end: CaptureEnd) -> (r: CaptureStep)
        ensures
            r@ == capture_step(self@.file is Some, end),
    {
        match end {
            CaptureEnd::Shutdown => CaptureStep::Finish,
            CaptureEnd::Exited { success, status } => match &self.input {
                FfmpegInput::Live => CaptureStep::Restart,
                FfmpegInput::File(_) => if success {
                    CaptureStep::Finish
                } else {
                    CaptureStep::Fail(AudioError::FilePlayback(status))
                },
            },
            CaptureEnd::Failed(error) => match error {
                AudioError::ChannelClosed => CaptureStep::Fail(AudioError::ChannelClosed),
                _ => CaptureStep::Restart,
            },
        }
    }
}

/// Gathers bytes until they make a frame.
#[derive(Debug)]
pub struct FrameBuffer {
    size: usize,
    filled: Vec<u8>,
}

impl FrameBuffer {
    /// The bytes so far.
    pub closed spec fn bytes(&self) -> Seq<u8> {
        self.filled@
    }

    /// The bytes of a frame.
    pub closed spec fn frame_size(&self) -> nat {
        self.size as nat
    }

    /// Whether the bytes so far are fewer than a frame has.
    pub open spec fn well_formed(&self) -> bool {
        self.bytes().len() < self.frame_size()
    }

    /// A buffer without bytes, for frames of the given size.
    pub fn new(size: usize) -> (r: Self)
        requires
            size > 0,
        ensures
            r.well_formed(),
            r.frame_size() == size,
            r.bytes() == Seq::<u8>::empty(),
    {
        FrameBuffer { size, filled: Vec::new() }
    }

    /// How many bytes are missing.
    pub fn missing(&self) -> (r: usize)
        requires
            self.well_formed(),
        ensures
            r == self.frame_size() - self.bytes().len(),
            r > 0,
    {
        self.size - self.filled.len()
    }

    /// How many bytes there are.
    pub fn partial_bytes(&self) -> (r: usize)
        ensures
            r == self.bytes().len(),
    {
        self.filled.len()
    }

    /// Takes in bytes, no more than are missing, and hands out the frame that
    /// they complete.
    pub fn fill(&mut self, bytes: &Vec<u8>) -> (r: Option<Vec<u8>>)
        requires
            old(self).well_formed(),
            bytes@.len() <= old(self).frame_size() - old(self).bytes().len(),
        ensures
            final(self).well_formed(),
            final(self).frame_size() == old(self).frame_size(),
            ({
                let all = old(self).bytes() + bytes@;
                match r {
                    Some(frame) => {
                        &&& frame@ == all
                        &&& all.len() == old(self).frame_size()
                        &&& final(self).bytes() == Seq::<u8>::empty()
                    },
                    None => all.len() < old(self).frame_size() && final(self).bytes() == all,
                }
            }),
    {
        let ghost before = self.filled@;
        let mut i: usize = 0;
        while i < bytes.len()
            invariant
                i <= bytes@.len(),
                self.size == old(self).size,
                self.filled@ == before + bytes@.take(i as int),
            decreases bytes@.len() - i,
        {
            self.filled.push(bytes[i]);
            i += 1;
            assert(self.filled@ =~= before + bytes@.take(i as int));
        }
        assert(bytes@.take(i as int) =~= bytes@);
        if self.filled.len() == self.size {
            let mut frame: Vec<u8> = Vec::new();
            frame.append(&mut self.filled);
            assert(frame@ =~= before + bytes@);
            Some(frame)
        } else {
            None
        }
    }
}

/// Whether it is time to warn of a queue: it has grown by a step since the
/// last warning, or it is full and was never warned of.
pub fn queue_warning_due(queue_len: usize, highest_warned: usize, is_full: bool) -> (r: bool)
    ensures
        r == (queue_len >= highest_warned + QUEUE_WARNING_STEP || (queue_len == usize::MAX
            && highest_warned + QUEUE_WARNING_STEP > usize::MAX) || (is_full && highest_warned
            == 0)),
{
    let due: usize = highest_warned.saturating_add(QUEUE_WARNING_STEP);
    queue_len >= due || (is_full && highest_warned == 0)
}

/// A file that was played to its end, well or not, is not played again; a live
/// source that has ended is started again.
pub proof fn a_file_is_played_once(success: bool, status: String)
    ensures
        !(capture_step(true, CaptureEnd::Exited { success, status }) is Restart),
        capture_step(false, CaptureEnd::Exited { success, status }) is Restart,
{
}

/// A frame has the bytes of so many milliseconds of sound at two bytes a
/// sample, rounded down; it is refused where there is not one byte, or more
/// than can be counted.
pub proof fn frames_hold_their_time(sample_rate: u32, channels: u16, chunk_ms: u64)
    ensures
        chunk_size(sample_rate, channels, chunk_ms) matches Ok(bytes) ==> bytes > 0 && bytes * 1000
            <= sample_rate * channels * 2 * chunk_ms < (bytes + 1) * 1000,
        chunk_size(sample_rate, channels, chunk_ms) is Ok <==> 1000 <= sample_rate * channels * 2
            * chunk_ms <= u64::MAX && (sample_rate * channels * 2 * chunk_ms) / 1000 <= usize::MAX,
        sample_rate * channels * 2 * chunk_ms > u64::MAX ==> chunk_size(
            sample_rate,
            channels,
            chunk_ms,
        ) == Err::<usize, Seq<char>>("calculation overflowed"@),
        0 <= sample_rate * channels * 2 * chunk_ms < 1000 ==> chunk_size(
            sample_rate,
            channels,
            chunk_ms,
        ) == Err::<usize, Seq<char>>("calculation produced zero bytes"@),
{
    let product = sample_rate * channels * 2 * chunk_ms;
    assert(product >= 0) by (nonlinear_arith)
        requires
            product == sample_rate * channels * 2 * chunk_ms,
            sample_rate >= 0,
            channels >= 0,
            chunk_ms >= 0,
    ;
}

/// Sound is read from the source or from the file, and written as plain samples
/// with the channels and the rate that are asked for.
pub proof fn sound_is_asked_for_as_it_is_needed(s: SourceModel)
    ensures
        ({
            let a = ffmpeg_arguments(s);
            let n = a.len() as int;
            &&& a[0] == "-hide_banner"@
            &&& a[1] == "-loglevel"@
            &&& a[2] == "error"@
            &&& s.file is None ==> n == 14 && a[3] == "-f"@ && a[4] == s.config.input_format && a[5]
                == "-i"@ && a[6] == s.config.source
            &&& s.file matches Some(path) ==> n == 15 && a[3] == "-re"@ && a[4] == "-i"@ && a[5]
                == path && a[6] == "-af"@ && a[7] == "apad=pad_dur=2"@
            &&& a[n - 7] == "-ac"@
            &&& a[n - 6] == decimal(s.channels as nat)
            &&& a[n - 5] == "-ar"@
            &&& a[n - 4] == decimal(s.sample_rate as nat)
            &&& a[n - 3] == "-f"@
            &&& a[n - 2] == "s16le"@
            &&& a[n - 1] == "pipe:1"@
        }),
{
}

/// Capture is over where it was asked to stop, where a file was played, and
/// where nobody takes the sound; in any other case it is started again.
pub proof fn capture_goes_on_where_it_can(from_file: bool, end: CaptureEnd)
    ensures
        capture_step(from_file, end) is Finish <==> end is Shutdown || (from_file && (end matches
            CaptureEnd::Exited { success, .. } && success)),
        capture_step(from_file, end) is Restart <==> (end is Exited && !from_file) || (end matches
            CaptureEnd::Failed(error) && error@ != AudioErrorModel::ChannelClosed),
        capture_step(from_file, end) matches CaptureStepModel::Fail(error) ==> (end matches
            CaptureEnd::Failed(reason) && error == reason@ && error
            == AudioErrorModel::ChannelClosed) || (end matches CaptureEnd::Exited {
            status,
            ..
        } && error == AudioErrorModel::FilePlayback(status@)),
{
}

} // verus!
