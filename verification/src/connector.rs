//! The error value notification backends report.
//!
//! The backends themselves dispatch verdicts to external services and live
//! with the embedding application; the error value they hand back is plain
//! data and is kept here.

use vstd::prelude::*;
use vstd::string::StrSliceExecFns;

verus! {

/// A failure reported by one notification backend: which backend, and what
/// went wrong.
#[derive(Debug, Clone)]
pub struct ConnectorError {
    /// Name of the backend that failed.
    pub connector_name: String,
    /// Human-readable description of the failure.
    pub details: String,
}

impl ConnectorError {
    /// Builds an error value from a backend name and a description.
    pub fn new(n: &str, d: &str) -> (r: ConnectorError)
        ensures
            r.connector_name@ == n@,
            r.details@ == d@,
    {
        ConnectorError { connector_name: n.to_owned(), details: d.to_owned() }
    }

    /// The error rendered as `name : details`, for logs.
    pub fn message(&self) -> (r: String)
        ensures
            r@ == self.connector_name@ + " : "@ + self.details@,
    {
        let mut r = self.connector_name.clone();
        r.append(" : ");
        r.append(self.details.as_str());
        r
    }
}

} // verus!
