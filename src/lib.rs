//! Progress tracking for a directory-based exercise collection: discovery and
//! ordering of exercises, the open/solved state of each one, and the decisions
//! of the verification pipeline that judges them.
use vstd::prelude::*;

pub mod collection;
pub mod config;
pub mod definition;
pub mod discovery;
pub mod pipeline;
pub mod progress;
pub mod selector;

pub use collection::{CollectionError, ExerciseCollection};
pub use config::{
    default_exercise_dir, effective_verification, ExerciseConfig, ExercisesConfig, Verification,
};
pub use definition::{ExerciseDefinition, NameKind, ParseError};
pub use discovery::discover;
pub use pipeline::{
    exercises_to_verify, record_outcome, render_command_line, verification_plan, Invocation,
    PipelineRun, Stage, StepReport, TestOutcome,
};
pub use progress::{InvalidRecord, OpenedExercise, ProgressStore};
pub use selector::{parse_bool, Selector};

verus! {

} // verus!
