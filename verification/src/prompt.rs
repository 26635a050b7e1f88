//! Reading what a user typed at a prompt.
//!
//! An answer is compared after it was put in lowercase and stripped of the
//! whitespace around it, so `Yes`, ` yes` and `YES\n` are one answer.
//! Reading the line is left to the caller, who hands over what the read
//! gave: a line, or the error.

use vstd::prelude::*;
use crate::text::{lowercase, same_text, to_lowercase, trim, trimmed};

verus! {

/// Makes `std::io::Error` known, the error of a read that failed. Such a
/// value is only handed on; nothing is claimed of what it holds.
#[verifier::external_type_specification]
#[verifier::external_body]
pub struct ExIoError(std::io::Error);

/// An answer as it is compared: in lowercase, without the whitespace around
/// it.
pub open spec fn normalized(input: Seq<char>) -> Seq<char> {
    trimmed(lowercase(input))
}

/// Whether a normalized answer says yes.
pub open spec fn is_affirmative(answer: Seq<char>) -> bool {
    ||| answer == "y"@
    ||| answer == "yes"@
    ||| answer == "yea"@
    ||| answer == "yeah"@
    ||| answer == "yep"@
    ||| answer == "yup"@
}

/// Whether a normalized answer cancels a selection.
pub open spec fn is_cancel(answer: Seq<char>) -> bool {
    answer == "q"@ || answer == "quit"@
}

/// Puts a line of input in the form in which answers are compared.
pub fn normalize_answer(input: &str) -> (answer: String)
    ensures
        answer@ == normalized(input@),
{
    let lower = to_lowercase(input);
    trim(lower.as_str()).to_owned()
}

/// Whether a normalized answer says yes: it is one of `y`, `yes`, `yea`,
/// `yeah`, `yep`, `yup`.
pub fn affirmative(answer: &str) -> (yes: bool)
    ensures
        yes == is_affirmative(answer@),
{
    same_text(answer, "y") || same_text(answer, "yes") || same_text(answer, "yea") || same_text(
        answer,
        "yeah",
    ) || same_text(answer, "yep") || same_text(answer, "yup")
}

/// Whether a normalized answer cancels: it is `q` or `quit`.
pub fn cancels(answer: &str) -> (cancel: bool)
    ensures
        cancel == is_cancel(answer@),
{
    same_text(answer, "q") || same_text(answer, "quit")
}

/// Whether the line that a user typed at a yes-or-no question says yes.
/// Anything but a yes is a no.
pub fn confirms(input: &str) -> (yes: bool)
    ensures
        yes == is_affirmative(normalized(input@)),
{
    let answer = normalize_answer(input);
    affirmative(answer.as_str())
}

/// What reading a line at a yes-or-no question comes to.
pub open spec fn confirmation(read: Result<String, std::io::Error>) -> Result<
    bool,
    std::io::Error,
> {
    match read {
        Ok(line) => Ok(is_affirmative(normalized(line@))),
        Err(e) => Err(e),
    }
}

/// The answer to a yes-or-no question, from what reading a line gave.
///
/// A line that was read says yes or no. Where no line could be read, the
/// error of the read is handed on as it is.
pub fn confirmation_prompt(read: Result<String, std::io::Error>) -> (out: Result<
    bool,
    std::io::Error,
>)
    ensures
        out == confirmation(read),
{
    match read {
        Ok(line) => Ok(confirms(line.as_str())),
        Err(e) => Err(e),
    }
}

} // verus!
