//! The errors of the library.
use crate::json::count_text;
use vstd::prelude::*;

verus! {

/// The three shapes a query result can take.
#[derive(PartialEq, Eq, Structural, Clone, Copy, Debug)]
pub enum Shape {
    /// A sequence of solutions (SELECT).
    RowSet,
    /// A single truth value (ASK).
    Boolean,
    /// A sequence of triples (CONSTRUCT, DESCRIBE).
    Graph,
}

/// What can go wrong, with enough context to reproduce it.
#[derive(Debug, PartialEq)]
pub enum Error {
    /// A name or a query that is not valid UTF-8; the text says which and why.
    InvalidInput(String),
    /// No store of that name, or no store at that path.
    NotFound(String),
    /// The storage engine failed; the text is its message.
    Storage(String),
    /// Graph data or query text that the engine could not parse or evaluate.
    ParseFailure(String),
    /// The query produced a result of another shape than the entry point serves.
    WrongResultShape { expected: Shape, got: Shape },
    /// A row-set query returned no solution where an empty answer is refused.
    NoResults,
    /// The remote endpoint answered with a non-success status.
    RemoteQueryFailed { status: u16, endpoint: String },
    /// The remote endpoint's answer is not a result envelope.
    InvalidEnvelope(String),
    /// A file named without wildcards does not exist.
    FileNotFound(String),
    /// A pattern matched no graph-data file.
    NoFilesMatched(String),
}

/// The message of a query the engine could not evaluate.
pub open spec fn eval_failure_message(m: Seq<char>) -> Seq<char> {
    "SPARQL query execution failed: "@ + m
}

/// The message of a result of the wrong shape: it names the entry point that
/// serves the shape the query produced.
pub open spec fn shape_message(got: Shape) -> Seq<char> {
    match got {
        Shape::RowSet => "SELECT queries should use query function"@,
        Shape::Boolean => "ASK queries should use query_ask function"@,
        Shape::Graph => "CONSTRUCT queries should use query_construct function"@,
    }
}

/// The message of a missing store.
pub open spec fn not_found_message(name: Seq<char>) -> Seq<char> {
    "Store '"@ + name + "' not found"@
}

impl Error {
    /// A human-readable message naming what failed.
    pub fn message(&self) -> (r: String)
        ensures
            self is NotFound ==> r@ == not_found_message(self->NotFound_0@),
            self is WrongResultShape ==> r@ == shape_message(self->got),
            self is ParseFailure ==> r@ == self->ParseFailure_0@,
            self is Storage ==> r@ == self->Storage_0@,
            self is InvalidInput ==> r@ == self->InvalidInput_0@,
            self is InvalidEnvelope ==> r@ == self->InvalidEnvelope_0@,
            self is NoResults ==> r@ == "No records found for the given query"@,
    {
        match self {
            Error::InvalidInput(m) => m.clone(),
            Error::NotFound(name) => {
                let mut t = String::from_str("Store '");
                t.append(name.as_str());
                t.append("' not found");
                t
            },
            Error::Storage(m) => m.clone(),
            Error::ParseFailure(m) => m.clone(),
            Error::WrongResultShape { got, .. } => String::from_str(
                match got {
                    Shape::RowSet => "SELECT queries should use query function",
                    Shape::Boolean => "ASK queries should use query_ask function",
                    Shape::Graph => "CONSTRUCT queries should use query_construct function",
                },
            ),
            Error::NoResults => String::from_str("No records found for the given query"),
            Error::RemoteQueryFailed { status, endpoint } => {
                let mut t = String::from_str("HTTP request failed with status: ");
                t.append(count_text(*status as u64).as_str());
                t.append(" for endpoint: ");
                t.append(endpoint.as_str());
                t
            },
            Error::InvalidEnvelope(m) => m.clone(),
            Error::FileNotFound(p) => {
                let mut t = String::from_str("File does not exist: ");
                t.append(p.as_str());
                t
            },
            Error::NoFilesMatched(p) => {
                let mut t = String::from_str("No graph-data files found matching pattern: ");
                t.append(p.as_str());
                t
            },
        }
    }
}

} // verus!
