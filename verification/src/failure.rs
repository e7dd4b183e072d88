//! Why an operation was refused.

use vstd::prelude::*;

verus! {

/// A refusal, as the message that the user reads.
#[derive(Debug)]
pub struct Failure {
    pub message: String,
}

impl View for Failure {
    type V = Seq<char>;

    open spec fn view(&self) -> Seq<char> {
        self.message@
    }
}

/// The outcome of an operation as a mathematical object.
pub open spec fn outcome<T: View>(result: Result<T, Failure>) -> Result<T::V, Seq<char>> {
    match result {
        Ok(value) => Ok(value@),
        Err(failure) => Err(failure@),
    }
}

/// Whether `result` is the refusal with this message.
pub open spec fn refused<T>(result: Result<T, Failure>, message: Seq<char>) -> bool {
    result matches Err(failure) && failure@ == message
}

/// A refusal with a fixed message.
pub fn refuse(message: &str) -> (r: Failure)
    ensures
        r@ == message@,
{
    Failure { message: message.to_owned() }
}

/// A refusal whose message ends with a value.
pub fn refuse_about(head: &str, value: &str) -> (r: Failure)
    ensures
        r@ == head@ + value@,
{
    let mut message = head.to_owned();
    message.push_str(value);
    Failure { message }
}

/// A refusal whose message names one value: `head`, the value, `tail`.
pub fn refuse_naming(head: &str, value: &str, tail: &str) -> (r: Failure)
    ensures
        r@ == head@ + value@ + tail@,
{
    let mut message = head.to_owned();
    message.push_str(value);
    message.push_str(tail);
    Failure { message }
}

} // verus!
