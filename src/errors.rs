//! The error reported to the user.

use vstd::prelude::*;

verus! {

#[derive(Debug)]
pub struct GameError {
    message: String,
    payload: Option<String>,
}

impl GameError {
    pub fn new(message: &'static str, payload: Option<String>) -> (r: GameError)
        ensures
            r.message()@ == message@,
            r.payload() == payload,
    {
        GameError { message: message.to_owned(), payload }
    }

    /// An error with a message and nothing more.
    pub fn msg(message: &'static str) -> (r: GameError)
        ensures
            r.message()@ == message@,
            r.payload() is None,
    {
        GameError::new(message, None)
    }

    pub closed spec fn message(&self) -> String {
        self.message
    }

    pub closed spec fn payload(&self) -> Option<String> {
        self.payload
    }

    pub fn get_message(&self) -> (r: &String)
        ensures
            *r == self.message(),
    {
        &self.message
    }

    pub fn get_payload(&self) -> (r: &Option<String>)
        ensures
            *r == self.payload(),
    {
        &self.payload
    }
}

} // verus!
