use vstd::prelude::*;
use vstd::utf8::{decode_utf8, valid_utf8};

use crate::sodium::AuthFailure;

verus! {

/// The line that ends a session, on whichever side it is typed.
pub const QUIT_TOKEN: &'static str = ":quit";

/// What precedes a received message when it is shown.
pub const CHAT_PREFIX: &'static str = "chat: ";

/// What becomes of an opened message.
pub enum Delivery {
    /// Show this line.
    Show(String),
    /// The message did not authenticate: report it and go on.
    Rejected,
    /// The plaintext is not valid UTF-8: drop it.
    Undecodable,
    /// The peer ended the session.
    Terminate,
}

/// Relies on `String::from_utf8`: it returns the text that the bytes encode
/// exactly when they are valid UTF-8, and an error otherwise.
#[verifier::external_body]
fn text_of(bytes: Vec<u8>) -> (r: Option<String>)
    ensures
        r is Some <==> valid_utf8(bytes@),
        r is Some ==> r->Some_0@ == decode_utf8(bytes@),
{
    String::from_utf8(bytes).ok()
}

/// Whether `line` is the quit token.
pub fn is_quit(line: &String) -> (r: bool)
    ensures
        r == (line@ == QUIT_TOKEN@),
{
    *line == String::from_str(QUIT_TOKEN)
}

/// Decides what to do with the outcome of opening a message.
pub fn deliver(opened: Result<Vec<u8>, AuthFailure>) -> (r: Delivery)
    ensures
        opened is Err ==> r is Rejected,
        opened is Ok && !valid_utf8(opened->Ok_0@) ==> r is Undecodable,
        opened is Ok && valid_utf8(opened->Ok_0@) && decode_utf8(opened->Ok_0@) == QUIT_TOKEN@
            ==> r is Terminate,
        opened is Ok && valid_utf8(opened->Ok_0@) && decode_utf8(opened->Ok_0@) != QUIT_TOKEN@
            ==> r is Show && r->Show_0@ == CHAT_PREFIX@ + decode_utf8(opened->Ok_0@),
{
    match opened {
        Err(_) => Delivery::Rejected,
        Ok(m) => match text_of(m) {
            None => Delivery::Undecodable,
            Some(text) => {
                if is_quit(&text) {
                    Delivery::Terminate
                } else {
                    Delivery::Show(String::from_str(CHAT_PREFIX).concat(text.as_str()))
                }
            },
        },
    }
}

} // verus!
