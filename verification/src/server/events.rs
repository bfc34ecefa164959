//! Progress events of the four-stage workflow.

use vstd::prelude::*;

verus! {

/// A stage of the workflow, as events name it.
#[derive(Debug, Clone, Copy, PartialEq, Eq, Structural)]
pub enum Stage {
    /// Chapter splitting, summaries, segmentation.
    Preprocess,
    /// Script writing.
    Scripts,
    /// Voice design.
    Voices,
    /// Audio synthesis.
    Audio,
}

/// One progress event.
#[derive(Debug, Clone)]
pub enum ProgressEvent {
    /// A stage started.
    StageStarted { stage: Stage, total: Option<usize> },
    /// Progress within a stage (completed out of total).
    StageProgress { stage: Stage, completed: usize, total: Option<usize>, message: Option<String> },
    /// A stage completed.
    StageCompleted { stage: Stage },
    /// A stage failed.
    StageError { stage: Stage, error: String },
}

impl ProgressEvent {
    /// The stage the event is about.
    pub fn stage(&self) -> (s: Stage)
        ensures
            s == (match *self {
                ProgressEvent::StageStarted { stage, .. } => stage,
                ProgressEvent::StageProgress { stage, .. } => stage,
                ProgressEvent::StageCompleted { stage } => stage,
                ProgressEvent::StageError { stage, .. } => stage,
            }),
    {
        match self {
            ProgressEvent::StageStarted { stage, .. } => *stage,
            ProgressEvent::StageProgress { stage, .. } => *stage,
            ProgressEvent::StageCompleted { stage } => *stage,
            ProgressEvent::StageError { stage, .. } => *stage,
        }
    }
}

} // verus!
