//! What operations tell their callers, and the validation of required text
//! fields.

use crate::text::{is_blank, lemma_trimmed_empty_iff_blank, trim};
use vstd::prelude::*;
use vstd::string::StringExecFns;

verus! {

/// What an operation reports besides a record.
#[derive(Debug, Clone, PartialEq, Eq)]
pub enum Message {
    /// The operation was carried out.
    Success(String),
    /// A business rule stood in the way, such as an overlapping schedule.
    Error(String),
    /// An identifier that the request names is not in its store.
    NotFound(String),
    /// A required field of the request is missing.
    InvalidPayload(String),
    /// Identifiers can no longer be issued; the caller must abort.
    Fatal(String),
}

/// A message with its text as a sequence of characters.
pub ghost enum MessageView {
    Success(Seq<char>),
    Error(Seq<char>),
    NotFound(Seq<char>),
    InvalidPayload(Seq<char>),
    Fatal(Seq<char>),
}

impl View for Message {
    type V = MessageView;

    open spec fn view(&self) -> MessageView {
        match self {
            Message::Success(text) => MessageView::Success(text@),
            Message::Error(text) => MessageView::Error(text@),
            Message::NotFound(text) => MessageView::NotFound(text@),
            Message::InvalidPayload(text) => MessageView::InvalidPayload(text@),
            Message::Fatal(text) => MessageView::Fatal(text@),
        }
    }
}

/// The text of the complaint about an empty field called `field_name`.
pub open spec fn empty_field_text(field_name: Seq<char>) -> Seq<char> {
    field_name + " cannot be empty"@
}

/// Rejects a required text field that is empty once trimmed.
pub fn validate_string_field(field: &str, field_name: &str) -> (outcome: Result<(), Message>)
    ensures
        outcome is Ok <==> !is_blank(field@),
        outcome is Err ==> outcome->Err_0@ == MessageView::InvalidPayload(
            empty_field_text(field_name@),
        ),
{
    proof {
        lemma_trimmed_empty_iff_blank(field@);
    }
    if trim(field).is_empty() {
        let mut text = field_name.to_owned();
        text.append(" cannot be empty");
        Err(Message::InvalidPayload(text))
    } else {
        Ok(())
    }
}

} // verus!
