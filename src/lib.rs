//! A harness around a script parser: statistics over a corpus of files, the
//! decisions of a directory walk, and the decisions of an interactive session.
//!
//! The walk and the session are state machines. The code that owns the file
//! system and the terminal performs the action that each step asks for and
//! hands back what came of it as the next event.

pub mod stats;
pub mod tree;
pub mod session;
pub mod walk;

pub use stats::{DemoStats, StatsModel};
pub use walk::{
    attempt_stats, choose_visit, AttemptOutcome, EntryKind, TreeWalk, Visit, WalkAction,
    WalkEvent, WalkPhase,
};
pub use session::{
    DispatchOutcome, ParseStatus, Prompt, Session, SessionAction, SessionEvent, SessionPhase,
};
