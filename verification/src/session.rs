//! Sessions: the requests that drive them, what is read from their results,
//! and what is kept of them.

use crate::runtime::RuntimeError;
use vstd::prelude::*;

pub mod calls;
pub mod export;
pub mod extract;
pub mod history;
pub mod listing;
pub mod todos;
pub mod turn;

verus! {

#[derive(Debug, Clone, PartialEq, Eq)]
pub enum SessionError {
    Runtime(RuntimeError),
    Config(String),
    Protocol(String),
    Io(String),
}

impl SessionError {
    /// The message shown for the error.
    pub open spec fn text(&self) -> Seq<char> {
        match self {
            SessionError::Runtime(e) => "runtime: "@ + e.text(),
            SessionError::Config(m) => "config: "@ + m@,
            SessionError::Protocol(m) => "protocolo: "@ + m@,
            SessionError::Io(m) => "io: "@ + m@,
        }
    }

    pub fn to_text(&self) -> (r: String)
        ensures
            r@ == self.text(),
    {
        match self {
            SessionError::Runtime(e) => {
                let mut s = "runtime: ".to_owned();
                let t = e.to_text();
                s.append(t.as_str());
                s
            },
            SessionError::Config(m) => {
                let mut s = "config: ".to_owned();
                s.append(m.as_str());
                s
            },
            SessionError::Protocol(m) => {
                let mut s = "protocolo: ".to_owned();
                s.append(m.as_str());
                s
            },
            SessionError::Io(m) => {
                let mut s = "io: ".to_owned();
                s.append(m.as_str());
                s
            },
        }
    }
}

impl From<RuntimeError> for SessionError {
    fn from(e: RuntimeError) -> (r: SessionError) {
        SessionError::Runtime(e)
    }
}

impl vstd::std_specs::convert::FromSpecImpl<RuntimeError> for SessionError {
    open spec fn obeys_from_spec() -> bool {
        true
    }

    open spec fn from_spec(e: RuntimeError) -> SessionError {
        SessionError::Runtime(e)
    }
}

} // verus!
