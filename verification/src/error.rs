//! The error with which the construction of a pool fails, and the messages it
//! carries.

use crate::decimal::decimal;
use crate::decimal::to_decimal;
use vstd::prelude::*;
use vstd::string::StringExecFns;

verus! {

/// The message of the error for a pool of no workers.
pub open spec fn zero_size_message() -> Seq<char> {
    "Size must be larger than 0."@
}

/// The message of the error for the worker `id` whose thread could not be
/// spawned.
pub open spec fn spawn_failure_message(id: nat) -> Seq<char> {
    "Could not spawn the thread of id: "@ + decimal(id) + "."@
}

/// What a reader is shown for an error that carries `message`.
pub open spec fn rendered(message: Seq<char>) -> Seq<char> {
    "PoolCreationError "@ + message
}

/// Why a pool could not be constructed, as a message for a human reader.
#[derive(Debug)]
pub struct PoolCreationError {
    message: String,
}

impl View for PoolCreationError {
    type V = Seq<char>;

    /// The message that the error carries.
    closed spec fn view(&self) -> Seq<char> {
        self.message@
    }
}

impl PoolCreationError {
    /// An error that carries `msg`.
    pub fn new(msg: &str) -> (e: PoolCreationError)
        ensures
            e@ == msg@,
    {
        PoolCreationError { message: String::from_str(msg) }
    }

    /// The error for a pool of no workers.
    pub fn zero_size() -> (e: PoolCreationError)
        ensures
            e@ == zero_size_message(),
    {
        PoolCreationError::new("Size must be larger than 0.")
    }

    /// The error for the worker `id` whose thread could not be spawned.
    pub fn spawn_failed(id: usize) -> (e: PoolCreationError)
        ensures
            e@ == spawn_failure_message(id as nat),
    {
        let mut message = String::from_str("Could not spawn the thread of id: ");
        let numeral = to_decimal(id);
        message.append(numeral.as_str());
        message.append(".");
        PoolCreationError { message }
    }

    /// The message that the error carries.
    pub fn message(&self) -> (m: &str)
        ensures
            m@ == self@,
    {
        self.message.as_str()
    }

    /// The error as a reader is shown it: the type's name, a space, the
    /// message.
    pub fn to_string(&self) -> (s: String)
        ensures
            s@ == rendered(self@),
    {
        let mut s = String::from_str("PoolCreationError ");
        s.append(self.message.as_str());
        s
    }
}

} // verus!
