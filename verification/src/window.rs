//! What the window answers when the text of its colour entry is committed.
//!
//! The entry hands over its text as it stands. The window reads it as a
//! code with the alpha last, and either has a colour or tells the user that
//! the text could not be read.

use vstd::prelude::*;
use crate::color::{format_hex, parse_hex, AlphaPosition, Color};

verus! {

/// The text of the notice shown when the committed text is no colour code.
pub const PARSE_FAILURE: &'static str = "Failed to parse color";

/// The window's answer to a committed text.
#[derive(Debug, PartialEq, Eq)]
pub enum Feedback {
    /// The text names this colour; the string is the colour's code, alpha
    /// last.
    Accepted(Color, String),
    /// The text names no colour; the string is the notice to show.
    Rejected(&'static str),
}

/// A `Feedback` with its strings as sequences of characters.
pub enum FeedbackView {
    Accepted(Color, Seq<char>),
    Rejected(Seq<char>),
}

impl View for Feedback {
    type V = FeedbackView;

    open spec fn view(&self) -> FeedbackView {
        match self {
            Feedback::Accepted(color, code) => FeedbackView::Accepted(*color, code@),
            Feedback::Rejected(notice) => FeedbackView::Rejected(notice@),
        }
    }
}

/// The answer that the committed text `content` calls for.
pub open spec fn answer_to(content: Seq<char>) -> FeedbackView {
    match parse_hex(content, AlphaPosition::End) {
        Ok(color) => FeedbackView::Accepted(color, format_hex(color, AlphaPosition::End)),
        Err(_) => FeedbackView::Rejected(PARSE_FAILURE@),
    }
}

/// Answers a committed text: the colour and its code where the text is a
/// colour code with the alpha last, the notice of failure where it is not,
/// whatever the reason.
pub fn on_activate(content: &str) -> (feedback: Feedback)
    ensures
        feedback@ == answer_to(content@),
{
    match Color::from_hex(content, AlphaPosition::End) {
        Ok(color) => {
            let code = color.to_hex_string(AlphaPosition::End);
            Feedback::Accepted(color, code)
        },
        Err(_) => Feedback::Rejected(PARSE_FAILURE),
    }
}

} // verus!
