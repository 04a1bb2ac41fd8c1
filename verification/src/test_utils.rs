//! Utilities for tests.
use vstd::prelude::*;

verus! {

/// What a panic carries.
pub enum PanicPayload<'a> {
    /// A string literal.
    Str(&'a str),
    /// A formatted message.
    String(&'a String),
    /// Something that is no message.
    Other,
}

impl<'a> PanicPayload<'a> {
    /// The message, if it is one.
    pub open spec fn message(self) -> Seq<char> {
        match self {
            PanicPayload::Str(s) => s@,
            PanicPayload::String(s) => s@,
            PanicPayload::Other => Seq::empty(),
        }
    }
}

/// The message of a panic. It has to carry one.
pub fn extract_string_panic_message(payload: PanicPayload<'_>) -> (message: String)
    requires
        !(payload is Other),
    ensures
        message@ == payload.message(),
{
    match payload {
        PanicPayload::Str(s) => s.to_string(),
        PanicPayload::String(s) => s.clone(),
        PanicPayload::Other => String::new(),
    }
}

/// The message of a panic is the whole of what it carries.
pub proof fn law_message_is_whole(literal: &str, formatted: &String)
    ensures
        PanicPayload::Str(literal).message().len() == literal@.len(),
        forall|i: int|
            0 <= i < literal@.len() ==> PanicPayload::Str(literal).message()[i]
                == #[trigger] literal@[i],
        PanicPayload::String(formatted).message().len() == formatted@.len(),
        forall|i: int|
            0 <= i < formatted@.len() ==> PanicPayload::String(formatted).message()[i]
                == #[trigger] formatted@[i],
{
}

} // verus!
