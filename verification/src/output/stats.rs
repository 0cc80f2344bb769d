//! How many events of each kind were put out.
use vstd::prelude::*;

use crate::events::{OutputComponent, OutputEvent, OutputEventModel};

verus! {

/// Counts of the events that were put out.
#[derive(Clone, Copy, Debug, PartialEq, Eq, Structural)]
pub struct OutputStats {
    pub statuses: u64,
    pub transcripts: u64,
    pub started: u64,
    pub completed: u64,
    pub failed: u64,
}

/// No event yet.
pub open spec fn no_output() -> OutputStats {
    OutputStats { statuses: 0, transcripts: 0, started: 0, completed: 0, failed: 0 }
}

impl Default for OutputStats {
    fn default() -> (r: Self)
        ensures
            r == no_output(),
    {
        OutputStats { statuses: 0, transcripts: 0, started: 0, completed: 0, failed: 0 }
    }
}

impl OutputStats {
    /// Whether `count` more events of any kind can be counted.
    pub open spec fn room_for(self, count: int) -> bool {
        &&& self.statuses + count <= u64::MAX
        &&& self.transcripts + count <= u64::MAX
        &&& self.started + count <= u64::MAX
        &&& self.completed + count <= u64::MAX
        &&& self.failed + count <= u64::MAX
    }

    /// Whether `count` more events of any kind can be counted.
    pub fn has_room_for(&self, count: u64) -> (r: bool)
        ensures
            r == self.room_for(count as int),
    {
        let left: u64 = u64::MAX - count;
        self.statuses <= left && self.transcripts <= left && self.started <= left && self.completed
            <= left && self.failed <= left
    }
}

/// The counts with one more event.
pub open spec fn counted(stats: OutputStats, event: OutputEventModel) -> OutputStats {
    match event {
        OutputEventModel::Status(_) => OutputStats {
            statuses: (stats.statuses + 1) as u64,
            ..stats
        },
        OutputEventModel::Transcript(_) => OutputStats {
            transcripts: (stats.transcripts + 1) as u64,
            ..stats
        },
        OutputEventModel::AnswerStarted(_) => OutputStats {
            started: (stats.started + 1) as u64,
            ..stats
        },
        OutputEventModel::AnswerCompleted { .. } => OutputStats {
            completed: (stats.completed + 1) as u64,
            ..stats
        },
        OutputEventModel::Error(error) => if error.component == OutputComponent::Llm {
            OutputStats { failed: (stats.failed + 1) as u64, ..stats }
        } else {
            stats
        },
        _ => stats,
    }
}

/// Counts one more event.
pub fn update_stats(stats: &mut OutputStats, event: &OutputEvent)
    requires
        old(stats).room_for(1),
    ensures
        *final(stats) == counted(*old(stats), event@),
{
    match event {
        OutputEvent::Status(_) => {
            stats.statuses += 1;
        },
        OutputEvent::Transcript(_) => {
            stats.transcripts += 1;
        },
        OutputEvent::AnswerStarted(_) => {
            stats.started += 1;
        },
        OutputEvent::AnswerCompleted { .. } => {
            stats.completed += 1;
        },
        OutputEvent::Error(error) => {
            if error.component == OutputComponent::Llm {
                stats.failed += 1;
            }
        },
        _ => {},
    }
}

/// The receiver of the forwarded events is gone.
#[derive(Clone, Copy, Debug, PartialEq, Eq, Structural)]
pub struct ChannelOutputError;

impl ChannelOutputError {
    /// The failure in words.
    pub fn message(self) -> (r: String)
        ensures
            r@ == "overlay output channel closed"@,
    {
        "overlay output channel closed".to_owned()
    }
}

/// Each event that is counted counts once, under its own name; errors count as
/// failures where they are about answers.
pub proof fn events_count_once(stats: OutputStats, event: OutputEventModel)
    requires
        stats.room_for(1),
    ensures
        ({
            let after = counted(stats, event);
            let failed = event matches OutputEventModel::Error(error) && error.component
                == OutputComponent::Llm;
            &&& after.statuses - stats.statuses == (if event is Status {
                1int
            } else {
                0
            })
            &&& after.transcripts - stats.transcripts == (if event is Transcript {
                1int
            } else {
                0
            })
            &&& after.started - stats.started == (if event is AnswerStarted {
                1int
            } else {
                0
            })
            &&& after.completed - stats.completed == (if event is AnswerCompleted {
                1int
            } else {
                0
            })
            &&& after.failed - stats.failed == (if failed {
                1int
            } else {
                0
            })
        }),
        no_output().statuses == 0,
        no_output().transcripts == 0,
        no_output().started == 0,
        no_output().completed == 0,
        no_output().failed == 0,
{
}

} // verus!
