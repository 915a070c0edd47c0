//! The menu: what a line of input asks for, given what has been loaded so
//! far, and the list of names that a line of input holds.

use vstd::prelude::*;
use vstd::string::*;
use std::num::IntErrorKind;
use crate::text::{chars_of, fields, split_fields, texts, trim_chars, trimmed};

verus! {

/// Why a text is no number.
#[derive(Clone, Copy, Debug, PartialEq, Eq, Structural)]
pub enum NumberFault {
    /// The text is empty.
    Empty,
    /// The text holds a character that is no digit.
    InvalidDigit,
    /// The number does not fit.
    TooLarge,
    /// Any other reason.
    Other,
}

/// A text that could not be read as a number: the kind of fault, and the
/// fault in words.
pub struct NumberError {
    pub fault: NumberFault,
    pub text: String,
}

/// What the menu does next.
pub enum MenuAction {
    /// Load the credential list.
    LoadTokens,
    /// Ask for names and look their identifiers up.
    AskUsernames,
    /// Monitoring was asked for and no credential is loaded.
    NeedTokens,
    /// Monitoring was asked for and no target is known.
    NeedTargets,
    /// Start monitoring.
    Monitor,
    /// Show the known targets.
    ShowTargets,
    /// The number is none of the menu's.
    RejectChoice,
    /// The input is no number; the fault in words.
    RejectInput(String),
}

pub enum MenuActionView {
    LoadTokens,
    AskUsernames,
    NeedTokens,
    NeedTargets,
    Monitor,
    ShowTargets,
    RejectChoice,
    RejectInput(Seq<char>),
}

impl View for MenuAction {
    type V = MenuActionView;

    open spec fn view(&self) -> MenuActionView {
        match self {
            MenuAction::LoadTokens => MenuActionView::LoadTokens,
            MenuAction::AskUsernames => MenuActionView::AskUsernames,
            MenuAction::NeedTokens => MenuActionView::NeedTokens,
            MenuAction::NeedTargets => MenuActionView::NeedTargets,
            MenuAction::Monitor => MenuActionView::Monitor,
            MenuAction::ShowTargets => MenuActionView::ShowTargets,
            MenuAction::RejectChoice => MenuActionView::RejectChoice,
            MenuAction::RejectInput(text) => MenuActionView::RejectInput(text@),
        }
    }
}

pub open spec fn is_digit(c: char) -> bool {
    '0' as u32 <= c as u32 <= '9' as u32
}

/// The text is made of decimal digits, at least one.
pub open spec fn is_digits(s: Seq<char>) -> bool {
    s.len() > 0 && forall|i: int| 0 <= i < s.len() ==> is_digit(#[trigger] s[i])
}

/// The number that a text of decimal digits stands for.
pub open spec fn digits_value(s: Seq<char>) -> nat
    decreases s.len(),
{
    if s.len() == 0 {
        0
    } else {
        digits_value(s.drop_last()) * 10 + (s.last() as u32 - '0' as u32) as nat
    }
}

/// The text without a plus sign at its start.
pub open spec fn unsigned(s: Seq<char>) -> Seq<char> {
    if s.len() > 0 && s[0] == '+' {
        s.drop_first()
    } else {
        s
    }
}

/// The number that a text stands for: decimal digits, with or without a
/// plus sign before them, whose value fits in 32 bits.
pub open spec fn u32_of(s: Seq<char>) -> Option<u32> {
    let digits = unsigned(s);
    if is_digits(digits) && digits_value(digits) <= u32::MAX {
        Some(digits_value(digits) as u32)
    } else {
        None
    }
}

/// What the standard library says of a text that it does not read as a
/// number of 32 bits: the `to_string` of the error of `str::parse::<u32>`.
pub uninterp spec fn u32_parse_error_text(s: Seq<char>) -> Seq<char>;

/// `str::parse::<u32>`: the number, where the text is decimal digits with
/// or without a plus sign before them and the value fits; otherwise the
/// kind of the error and its `to_string`. Of the kind only this is stated:
/// an empty text, and no other, gives the fault for that.
#[verifier::external_body]
fn parse_u32(s: &str) -> (r: Result<u32, NumberError>)
    ensures
        r is Ok <==> u32_of(s@) is Some,
        r matches Ok(n) ==> u32_of(s@) == Some(n),
        r matches Err(e) ==> (e.fault == NumberFault::Empty <==> s@.len() == 0),
        r matches Err(e) ==> e.text@ == u32_parse_error_text(s@),
{
    match s.parse::<u32>() {
        Ok(n) => Ok(n),
        Err(e) => {
            let fault = match e.kind() {
                IntErrorKind::Empty => NumberFault::Empty,
                IntErrorKind::InvalidDigit => NumberFault::InvalidDigit,
                IntErrorKind::PosOverflow => NumberFault::TooLarge,
                _ => NumberFault::Other,
            };
            Err(NumberError { fault, text: e.to_string() })
        },
    }
}

/// What the menu does for a number that was read, or for the fault in
/// words where none was.
pub open spec fn decision(
    choice: Result<u32, Seq<char>>,
    tokens: nat,
    targets: nat,
) -> MenuActionView {
    match choice {
        Ok(1) => MenuActionView::LoadTokens,
        Ok(2) => MenuActionView::AskUsernames,
        Ok(3) => if tokens == 0 {
            MenuActionView::NeedTokens
        } else if targets == 0 {
            MenuActionView::NeedTargets
        } else {
            MenuActionView::Monitor
        },
        Ok(4) => MenuActionView::ShowTargets,
        Ok(_) => MenuActionView::RejectChoice,
        Err(text) => MenuActionView::RejectInput(text),
    }
}

pub open spec fn choice_view(choice: Result<u32, NumberError>) -> Result<u32, Seq<char>> {
    match choice {
        Ok(n) => Ok(n),
        Err(e) => Err(e.text@),
    }
}

/// Decides what the menu does, given what the input was read as, how many
/// credentials are loaded and how many targets are known. Monitoring needs
/// a credential first, and then a target.
pub fn decide(choice: Result<u32, NumberError>, tokens: usize, targets: usize) -> (action:
    MenuAction)
    ensures
        action@ == decision(choice_view(choice), tokens as nat, targets as nat),
{
    match choice {
        Ok(n) => {
            if n == 1 {
                MenuAction::LoadTokens
            } else if n == 2 {
                MenuAction::AskUsernames
            } else if n == 3 {
                if tokens == 0 {
                    MenuAction::NeedTokens
                } else if targets == 0 {
                    MenuAction::NeedTargets
                } else {
                    MenuAction::Monitor
                }
            } else if n == 4 {
                MenuAction::ShowTargets
            } else {
                MenuAction::RejectChoice
            }
        },
        Err(e) => MenuAction::RejectInput(e.text),
    }
}

/// What a text is read as: the number that it stands for, or what the
/// standard library says of it.
pub open spec fn reading(s: Seq<char>) -> Result<u32, Seq<char>> {
    match u32_of(s) {
        Some(n) => Ok(n),
        None => Err(u32_parse_error_text(s)),
    }
}

/// Reads a line of input as a number, whitespace at its ends aside.
pub fn read_choice(line: &str) -> (r: Result<u32, NumberError>)
    ensures
        choice_view(r) == reading(trimmed(line@)),
        r matches Err(e) ==> (e.fault == NumberFault::Empty <==> trimmed(line@).len() == 0),
{
    let chars = chars_of(line);
    let text = trim_chars(&chars);
    parse_u32(text.as_str())
}

/// Decides what the menu does for a line of input. A number from 1 to 4
/// picks its entry; any other number, and any input that is no number, is
/// turned down.
pub fn choose_action(line: &str, tokens: usize, targets: usize) -> (action: MenuAction)
    ensures
        action@ == decision(reading(trimmed(line@)), tokens as nat, targets as nat),
{
    decide(read_choice(line), tokens, targets)
}

impl MenuAction {
    /// What to tell the user where the menu does not go on to work: nothing
    /// for the entries that do.
    pub fn notice(&self) -> (text: Option<String>)
        ensures
            match self@ {
                MenuActionView::NeedTokens => text matches Some(t) && t@
                    == "Please load auth tokens first (option 1)"@,
                MenuActionView::NeedTargets => text matches Some(t) && t@
                    == "No UUIDs stored. Please get UUIDs first (option 2)"@,
                MenuActionView::RejectChoice => text matches Some(t) && t@
                    == "Invalid choice. Please enter a number between 1-4."@,
                MenuActionView::RejectInput(fault) => text matches Some(t) && t@
                    == "Invalid input: "@ + fault + ". Please enter a number between 1-4."@,
                _ => text is None,
            },
    {
        match self {
            MenuAction::NeedTokens => Some(
                String::from_str("Please load auth tokens first (option 1)"),
            ),
            MenuAction::NeedTargets => Some(
                String::from_str("No UUIDs stored. Please get UUIDs first (option 2)"),
            ),
            MenuAction::RejectChoice => Some(
                String::from_str("Invalid choice. Please enter a number between 1-4."),
            ),
            MenuAction::RejectInput(fault) => Some(
                String::from_str("Invalid input: ").concat(fault.as_str()).concat(
                    ". Please enter a number between 1-4.",
                ),
            ),
            _ => None,
        }
    }
}

/// The names that a comma-separated line holds: each trimmed, blank ones
/// left out, in order.
pub fn parse_usernames(line: &str) -> (names: Vec<String>)
    ensures
        texts(names@) == fields(line@, ','),
{
    split_fields(line, ',')
}

} // verus!
