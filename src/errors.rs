use vstd::prelude::*;

verus! {

/// An error of the classification path, carried as a message.
#[derive(Clone, Debug, PartialEq, Eq)]
pub struct ClassifyError {
    message: String,
}

impl ClassifyError {
    pub closed spec fn view_message(&self) -> Seq<char> {
        self.message@
    }

    /// An error with the given message.
    pub fn new(message: &str) -> (r: ClassifyError)
        ensures
            r.view_message() == message@,
    {
        ClassifyError { message: String::from_str(message) }
    }

    /// An error whose message names its source, then the underlying error:
    /// `"<source>: <err>"`.
    pub fn from_source(source: &str, err: &str) -> (r: ClassifyError)
        ensures
            r.view_message() == source@ + ": "@ + err@,
    {
        let head = String::from_str(source);
        let head = head.concat(": ");
        let message = head.concat(err);
        ClassifyError { message }
    }

    /// The message that describes this error.
    pub fn message(&self) -> (r: String)
        ensures
            r@ == self.view_message(),
    {
        self.message.clone()
    }
}

} // verus!
