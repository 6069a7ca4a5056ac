use vstd::prelude::*;
use vstd::string::StringExecFns;

verus! {

/// What can go wrong with a task.
#[derive(Debug)]
pub enum EdgeError {
    TaskNotFound(String),
    ExecutionFailed(String),
    NodeUnavailable(String),
    Timeout,
    InvalidWasm(String),
    NetworkError(String),
}

/// What an [`EdgeError`] says.
pub enum EdgeErrorView {
    TaskNotFound(Seq<char>),
    ExecutionFailed(Seq<char>),
    NodeUnavailable(Seq<char>),
    Timeout,
    InvalidWasm(Seq<char>),
    NetworkError(Seq<char>),
}

impl View for EdgeError {
    type V = EdgeErrorView;

    open spec fn view(&self) -> EdgeErrorView {
        match self {
            EdgeError::TaskNotFound(what) => EdgeErrorView::TaskNotFound(what@),
            EdgeError::ExecutionFailed(what) => EdgeErrorView::ExecutionFailed(what@),
            EdgeError::NodeUnavailable(what) => EdgeErrorView::NodeUnavailable(what@),
            EdgeError::Timeout => EdgeErrorView::Timeout,
            EdgeError::InvalidWasm(what) => EdgeErrorView::InvalidWasm(what@),
            EdgeError::NetworkError(what) => EdgeErrorView::NetworkError(what@),
        }
    }
}

impl EdgeErrorView {
    /// The message shown for this error.
    pub open spec fn text(self) -> Seq<char> {
        match self {
            EdgeErrorView::TaskNotFound(what) => "task not found: "@ + what,
            EdgeErrorView::ExecutionFailed(what) => "execution failed: "@ + what,
            EdgeErrorView::NodeUnavailable(what) => "node unavailable: "@ + what,
            EdgeErrorView::Timeout => "execution timed out"@,
            EdgeErrorView::InvalidWasm(what) => "invalid wasm: "@ + what,
            EdgeErrorView::NetworkError(what) => "network error: "@ + what,
        }
    }
}

impl EdgeError {
    /// The message shown for this error.
    pub fn message(&self) -> (s: String)
        ensures
            s@ == self@.text(),
    {
        match self {
            EdgeError::TaskNotFound(what) => "task not found: ".to_string().concat(what.as_str()),
            EdgeError::ExecutionFailed(what) => "execution failed: ".to_string().concat(what.as_str()),
            EdgeError::NodeUnavailable(what) => "node unavailable: ".to_string().concat(what.as_str()),
            EdgeError::Timeout => "execution timed out".to_string(),
            EdgeError::InvalidWasm(what) => "invalid wasm: ".to_string().concat(what.as_str()),
            EdgeError::NetworkError(what) => "network error: ".to_string().concat(what.as_str()),
        }
    }
}

/// The message of an error begins with the kind of the error and ends with its reason.
pub proof fn law_message_tells_kind_and_reason(what: Seq<char>)
    ensures
        EdgeErrorView::TaskNotFound(what).text() == "task not found: "@ + what,
        EdgeErrorView::ExecutionFailed(what).text() == "execution failed: "@ + what,
        EdgeErrorView::NodeUnavailable(what).text() == "node unavailable: "@ + what,
        EdgeErrorView::Timeout.text() == "execution timed out"@,
        EdgeErrorView::InvalidWasm(what).text() == "invalid wasm: "@ + what,
        EdgeErrorView::NetworkError(what).text() == "network error: "@ + what,
{
}

/// An error is seen as it is.
pub proof fn law_edge_error_is_seen_as_it_is(e: EdgeError)
    ensures
        match e {
            EdgeError::TaskNotFound(what) => e@ == EdgeErrorView::TaskNotFound(what@),
            EdgeError::ExecutionFailed(what) => e@ == EdgeErrorView::ExecutionFailed(what@),
            EdgeError::NodeUnavailable(what) => e@ == EdgeErrorView::NodeUnavailable(what@),
            EdgeError::Timeout => e@ == EdgeErrorView::Timeout,
            EdgeError::InvalidWasm(what) => e@ == EdgeErrorView::InvalidWasm(what@),
            EdgeError::NetworkError(what) => e@ == EdgeErrorView::NetworkError(what@),
        },
{
}

} // verus!
