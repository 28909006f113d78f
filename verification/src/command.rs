//! The command surface: what the hosting shell hands in and gets back.
//!
//! Three commands carry logic of their own here. The greeting is put
//! together from the name. A tone lookup starts from a request that holds the
//! text. And the reply to a play command is `"OK"`, or the description of
//! what failed.

use crate::session::Failure;
use crate::session::Reply;
use vstd::prelude::*;
use vstd::string::StringExecFns;

verus! {

/// Address of the tone lookup.
pub const TONE_ENDPOINT: &'static str = "http://localhost:8000/tone";

/// The body of a tone lookup.
#[derive(Clone, Debug, PartialEq, Eq)]
pub struct PinyinRequest {
    pub pinyin: String,
}

/// The answer to a tone lookup: the text, the text with its tone marks, and
/// the tone.
#[derive(Clone, Debug, PartialEq, Eq)]
pub struct PinyinRespond {
    pub pinyin: String,
    pub py_styled: String,
    pub tone: String,
}

/// The request that looks up the tone of `input`.
pub fn tone_request(input: &str) -> (request: PinyinRequest)
    ensures
        request.pinyin@ == input@,
{
    PinyinRequest { pinyin: String::from_str(input) }
}

/// The greeting for `name`.
pub open spec fn greeting(name: Seq<char>) -> Seq<char> {
    "Hello, "@ + name + "! You've been greeted from Rust!"@
}

/// Greets `name`.
pub fn greet(name: &str) -> (text: String)
    ensures
        text@ == greeting(name@),
{
    let mut text = String::from_str("Hello, ");
    text.append(name);
    text.append("! You've been greeted from Rust!");
    text
}

/// How a failure is described to the user.
pub open spec fn failure_text(failure: Failure) -> Seq<char> {
    match failure {
        Failure::Connection => "could not connect to the synthesis stream"@,
        Failure::Transport => "the synthesis stream broke off"@,
        Failure::Device => "the audio output device is not available"@,
    }
}

/// What a play command returns for `reply`: `"OK"` where all was played,
/// else the description of the failure as the error.
pub open spec fn play_result(reply: Reply) -> Result<Seq<char>, Seq<char>> {
    match reply {
        Reply::Done => Ok("OK"@),
        Reply::Failed(failure) => Err(failure_text(failure)),
    }
}

/// Describes a failure to the user.
pub fn describe(failure: Failure) -> (text: String)
    ensures
        text@ == failure_text(failure),
{
    match failure {
        Failure::Connection => String::from_str("could not connect to the synthesis stream"),
        Failure::Transport => String::from_str("the synthesis stream broke off"),
        Failure::Device => String::from_str("the audio output device is not available"),
    }
}

/// Turns the reply of a session into what the play command returns.
pub fn play_reply(reply: Reply) -> (result: Result<String, String>)
    ensures
        match play_result(reply) {
            Ok(text) => result is Ok && result->Ok_0@ == text,
            Err(text) => result is Err && result->Err_0@ == text,
        },
{
    match reply {
        Reply::Done => Ok(String::from_str("OK")),
        Reply::Failed(failure) => Err(describe(failure)),
    }
}

} // verus!
