use vstd::prelude::*;

use crate::text::concat;

verus! {

/// The library's error: a configuration problem or a runtime problem, each with its message.
pub enum TokensmithError {
    Config(String),
    Runtime(String),
}

impl TokensmithError {
    /// The message the error carries.
    pub open spec fn message_view(&self) -> Seq<char> {
        match self {
            TokensmithError::Config(m) => m@,
            TokensmithError::Runtime(m) => m@,
        }
    }

    /// The message the error carries, without the kind's prefix.
    pub fn message(&self) -> (r: String)
        ensures
            r@ == self.message_view(),
    {
        match self {
            TokensmithError::Config(m) => m.clone(),
            TokensmithError::Runtime(m) => m.clone(),
        }
    }

    /// What the error displays: its kind, a colon, and its message.
    pub fn to_string(&self) -> (r: String)
        ensures
            r@ == match self {
                TokensmithError::Config(m) => "configuration error: "@ + m@,
                TokensmithError::Runtime(m) => "runtime error: "@ + m@,
            },
    {
        match self {
            TokensmithError::Config(m) => concat("configuration error: ", m.as_str()),
            TokensmithError::Runtime(m) => concat("runtime error: ", m.as_str()),
        }
    }
}

} // verus!
