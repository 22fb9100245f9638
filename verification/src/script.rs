//! The outcome of running the chart script: its output on success, its
//! error text otherwise.

use vstd::prelude::*;
use vstd::utf8::{decode_utf8, valid_utf8};

verus! {

/// The text that `String::from_utf8_lossy` makes of `bytes`: the bytes
/// decoded as UTF-8, with each invalid sequence replaced by U+FFFD.
pub uninterp spec fn lossy_text(bytes: Seq<u8>) -> Seq<char>;

/// Decodes bytes as UTF-8, replacing what does not decode.
///
/// Trusted: calls `String::from_utf8_lossy` and takes the text as an owned
/// `String`. Its documentation states that valid UTF-8 comes back
/// unchanged; the contract says so, and names the result otherwise.
#[verifier::external_body]
fn utf8_lossy(bytes: &[u8]) -> (r: String)
    ensures
        r@ == lossy_text(bytes@),
        valid_utf8(bytes@) ==> r@ == decode_utf8(bytes@),
{
    String::from_utf8_lossy(bytes).into_owned()
}

/// What the script run gives back: the text of its standard output when it
/// succeeded, else the text of its standard error as the error.
pub open spec fn script_outcome(success: bool, stdout: Seq<u8>, stderr: Seq<u8>) -> Result<
    Seq<char>,
    Seq<char>,
> {
    if success {
        Ok(lossy_text(stdout))
    } else {
        Err(lossy_text(stderr))
    }
}

/// The view of a run's outcome.
pub open spec fn outcome_view(r: Result<String, String>) -> Result<Seq<char>, Seq<char>> {
    match r {
        Ok(s) => Ok(s@),
        Err(e) => Err(e@),
    }
}

/// Turns the captured result of running the chart script into its outcome:
/// the standard output, decoded, when the script exited successfully, and
/// otherwise the standard error, decoded, as the error.
pub fn script_python(success: bool, stdout: &[u8], stderr: &[u8]) -> (r: Result<String, String>)
    ensures
        outcome_view(r) == script_outcome(success, stdout@, stderr@),
        success && valid_utf8(stdout@) ==> outcome_view(r) == Ok::<Seq<char>, Seq<char>>(
            decode_utf8(stdout@),
        ),
        !success && valid_utf8(stderr@) ==> outcome_view(r) == Err::<Seq<char>, Seq<char>>(
            decode_utf8(stderr@),
        ),
{
    if success {
        Ok(utf8_lossy(stdout))
    } else {
        Err(utf8_lossy(stderr))
    }
}

} // verus!
