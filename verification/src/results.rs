//! What the server answers: the outcomes of a call and the values that the
//! server reports.

use vstd::prelude::*;

verus! {

/// Result of a synchronous command.
#[derive(Debug)]
pub enum SyncResult<T, E> {
    /// The server returned `OK`; holds the decoded result.
    Okay(T),
    /// The server returned `ERROR`; holds the decoded error.
    Error(E),
}

impl<T, E> SyncResult<T, E> {
    /// The result of a command that succeeded.
    pub fn unwrap(&self) -> (value: &T)
        requires
            self is Okay,
        ensures
            *value == self->Okay_0,
    {
        match self {
            SyncResult::Okay(t) => t,
            SyncResult::Error(_) => {
                assert(false);
                vstd::pervasive::unreached()
            },
        }
    }
}

/// Result of an asynchronous command.
#[derive(Debug)]
pub enum AsyncResult<T, F> {
    /// The command was not accepted: no task was created.
    Error(Message),
    /// The task finished; holds the decoded result.
    Finished(T),
    /// The task failed.
    Failed(FailedResult<F>),
}

impl<T, F> AsyncResult<T, F> {
    /// The result of a task that finished.
    pub fn unwrap(&self) -> (value: &T)
        requires
            self is Finished,
        ensures
            *value == self->Finished_0,
    {
        match self {
            AsyncResult::Finished(t) => t,
            _ => {
                assert(false);
                vstd::pervasive::unreached()
            },
        }
    }
}

/// Result of a failed asynchronous task.
#[derive(Debug)]
pub struct FailedResult<T> {
    /// Task identifier
    pub task: Task,
    /// Information about the error as returned from the server
    pub message: Message,
    /// Context information returned from the server
    pub context: Option<T>,
}

/// Describes a source position within Isabelle text
#[derive(Clone, Debug, PartialEq, Eq)]
pub struct Position {
    pub line: Option<usize>,
    pub offset: Option<usize>,
    pub end_offset: Option<usize>,
    pub filed: Option<String>,
    pub id: Option<usize>,
}

/// A message of the server.
#[derive(Clone, Debug, PartialEq, Eq)]
pub struct Message {
    /// The main message kinds are writeln (for regular output), warning, error.
    pub kind: String,
    pub message: String,
    pub pos: Option<Position>,
}

/// Names a task that runs on the server.
#[derive(Clone, Debug, PartialEq, Eq)]
pub struct Task {
    pub task: String,
}

/// Progress of a theory that is being loaded.
#[derive(Clone, Debug, PartialEq, Eq)]
pub struct TheoryProgress {
    /// = "writeln"
    pub kind: String,
    pub message: String,
    pub session: String,
    pub percentage: Option<usize>,
}

/// Names a theory node.
#[derive(Clone, Debug, PartialEq, Eq)]
pub struct Node {
    pub node_name: String,
    pub theory_name: String,
}

/// The state of a theory node.
#[derive(Clone, Debug, PartialEq, Eq)]
pub struct NodeStatus {
    pub ok: bool,
    pub total: usize,
    pub unprocessed: usize,
    pub running: usize,
    pub warned: usize,
    pub failed: usize,
    pub canceled: bool,
    pub consolidated: bool,
    pub percentage: usize,
}

/// The state of each theory node.
#[derive(Clone, Debug, PartialEq, Eq)]
pub struct NodesStatus {
    pub status: Vec<(Node, NodeStatus)>,
}

/// An export of a theory.
#[derive(Clone, Debug, PartialEq, Eq)]
pub struct Export {
    pub name: String,
    pub base64: bool,
    pub body: String,
}

/// Results for `session_start` command
#[derive(Clone, Debug, PartialEq, Eq)]
pub struct SessionStartResult {
    pub task: String,
    /// Internal identification of the session object within the server process
    pub session_id: String,
    /// Temporary directory that is specifically created for this session and deleted after it has been stopped.
    pub tmp_dir: Option<String>,
}

/// Results for `session_stop` command
#[derive(Clone, Debug, PartialEq, Eq)]
pub struct SessionStopResult {
    pub task: String,
    pub ok: bool,
    pub return_code: usize,
}

/// Result per node as returned from the `use_theories` command
#[derive(Clone, Debug, PartialEq, Eq)]
pub struct NodeResults {
    pub node: Node,
    pub status: NodeStatus,
    pub messages: Vec<Message>,
    pub exports: Vec<Export>,
}

/// Results for `use_theories` command
#[derive(Clone, Debug, PartialEq, Eq)]
pub struct UseTheoryResults {
    pub task: String,
    pub ok: bool,
    pub errors: Vec<Message>,
    pub nodes: Vec<NodeResults>,
}

/// A theory that `purge_theories` has looked at.
#[derive(Clone, Debug, PartialEq, Eq)]
pub struct PurgedTheory {
    pub node_name: String,
    pub theory_name: String,
}

/// Results for `purge_theories` command.
#[derive(Clone, Debug, PartialEq, Eq)]
pub struct PurgeTheoryResults {
    pub purged: Vec<PurgedTheory>,
    pub retained: Vec<PurgedTheory>,
}

} // verus!
