//! The writer of key-values over REST.

use vstd::prelude::*;

verus! {

/// A writer of key-values to a repository reached over REST.
pub struct RestKeyValueWriter {
    repository_uri: String,
}

impl RestKeyValueWriter {
    /// The URI of the repository.
    pub closed spec fn uri(&self) -> Seq<char> {
        self.repository_uri@
    }

    /// A writer to the repository at `repository_uri`.
    pub fn new(repository_uri: &str) -> (r: Self)
        ensures
            r.uri() == repository_uri@,
    {
        Self { repository_uri: repository_uri.to_owned() }
    }

    /// The URI of the repository.
    pub fn repository_uri(&self) -> (r: &str)
        ensures
            r@ == self.uri(),
    {
        self.repository_uri.as_str()
    }
}

/// An error while writing key-values.
#[derive(Debug, PartialEq, Eq, Structural)]
pub enum RestKeyValueWriterError {
    Unknown,
}

} // verus!
