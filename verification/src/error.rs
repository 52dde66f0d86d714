use vstd::prelude::*;

verus! {

/// The error that every operation of the tagger reports: a message for the user.
#[derive(Debug, PartialEq, Eq)]
pub struct TagError {
    pub error: String,
}

impl TagError {
    /// Wraps a message.
    pub fn new(error: String) -> (r: Self)
        ensures
            r.error@ == error@,
    {
        TagError { error }
    }

    /// The message, as the user sees it.
    pub fn message(&self) -> (r: String)
        ensures
            r@ == self.error@,
    {
        self.error.clone()
    }
}

/// The message of an operating-system failure, as the user sees it: `IO Error: ` and what the
/// system reported.
pub open spec fn io_error_text(detail: Seq<char>) -> Seq<char> {
    "IO Error: "@ + detail
}

/// The error for a failed operation on the file system, whose report is `detail`.
pub fn io_error(detail: &String) -> (r: TagError)
    ensures
        r.error@ == io_error_text(detail@),
{
    TagError::new(String::from_str("IO Error: ").concat(detail.as_str()))
}

} // verus!
