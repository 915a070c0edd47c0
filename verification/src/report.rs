//! The line that shows a result: its parts and the colour of each.

use vstd::prelude::*;
use vstd::string::*;
use crate::outcome::{Emphasis, RoundResult, RoundResultView};

verus! {

/// The colours that the output uses.
#[derive(Clone, Copy, Debug, PartialEq, Eq, Structural)]
pub enum Tone {
    Cyan,
    DarkGrey,
    White,
    Green,
    Red,
}

/// A piece of text in one colour.
pub struct Segment {
    pub text: String,
    pub tone: Tone,
}

pub struct SegmentView {
    pub text: Seq<char>,
    pub tone: Tone,
}

impl View for Segment {
    type V = SegmentView;

    open spec fn view(&self) -> SegmentView {
        SegmentView { text: self.text@, tone: self.tone }
    }
}

/// The colour in which a result's status is shown: green for a claimed
/// name, red for a throttled lookup, white otherwise.
pub open spec fn tone_of(emphasis: Emphasis) -> Tone {
    match emphasis {
        Emphasis::Positive => Tone::Green,
        Emphasis::Negative => Tone::Red,
        Emphasis::Neutral => Tone::White,
        Emphasis::Failure => Tone::White,
    }
}

pub open spec fn segment(text: Seq<char>, tone: Tone) -> SegmentView {
    SegmentView { text, tone }
}

/// The line for a result: the time, the identifier, the name in brackets,
/// and the status.
pub open spec fn result_line(timestamp: Seq<char>, result: RoundResultView) -> Seq<SegmentView> {
    seq![
        segment(timestamp, Tone::Cyan),
        segment(" | "@, Tone::DarkGrey),
        segment(result.identifier, Tone::DarkGrey),
        segment(" ("@, Tone::DarkGrey),
        segment(result.name, Tone::White),
        segment(") | "@, Tone::DarkGrey),
        segment(result.status, tone_of(result.emphasis)),
    ]
}

pub open spec fn segment_views(segments: Seq<Segment>) -> Seq<SegmentView> {
    Seq::new(segments.len(), |i: int| segments[i]@)
}

pub fn status_tone(emphasis: Emphasis) -> (tone: Tone)
    ensures
        tone == tone_of(emphasis),
{
    match emphasis {
        Emphasis::Positive => Tone::Green,
        Emphasis::Negative => Tone::Red,
        Emphasis::Neutral => Tone::White,
        Emphasis::Failure => Tone::White,
    }
}

fn piece(text: &str, tone: Tone) -> (s: Segment)
    ensures
        s@ == segment(text@, tone),
{
    Segment { text: String::from_str(text), tone }
}

/// Lays out the line for `result`, reported at the time `timestamp`.
pub fn format_result(timestamp: &str, result: &RoundResult) -> (line: Vec<Segment>)
    ensures
        segment_views(line@) == result_line(timestamp@, result@),
{
    let mut line: Vec<Segment> = Vec::new();
    line.push(piece(timestamp, Tone::Cyan));
    line.push(piece(" | ", Tone::DarkGrey));
    line.push(piece(result.identifier.as_str(), Tone::DarkGrey));
    line.push(piece(" (", Tone::DarkGrey));
    line.push(piece(result.name.as_str(), Tone::White));
    line.push(piece(") | ", Tone::DarkGrey));
    line.push(piece(result.status.as_str(), status_tone(result.emphasis)));
    assert(segment_views(line@) =~= result_line(timestamp@, result@));
    line
}

} // verus!
