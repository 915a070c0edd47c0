//! What a monitoring task can hear from the network, and what it reports
//! for a target once it has heard enough.

use vstd::prelude::*;
use vstd::string::*;
use crate::text::{decimal, to_decimal};

verus! {

/// Status with which the lookup endpoint says that a name is free.
pub const STATUS_AVAILABLE: u16 = 204;

/// Status with which the claim endpoint says that the name was taken over.
pub const STATUS_CLAIMED: u16 = 200;

/// Status with which an endpoint says that the caller is being throttled.
pub const STATUS_RATE_LIMITED: u16 = 429;

/// A tracked name together with the identifier under which the lookup
/// endpoint knows it.
pub struct Target {
    pub name: String,
    pub identifier: String,
}

pub struct TargetView {
    pub name: Seq<char>,
    pub identifier: Seq<char>,
}

impl View for Target {
    type V = TargetView;

    open spec fn view(&self) -> TargetView {
        TargetView { name: self.name@, identifier: self.identifier@ }
    }
}

/// The answer to one request: a status code, or the description of a
/// failure below the level of status codes (timeout, refused connection,
/// failed name resolution).
pub enum Reply {
    Status(u16),
    Failed(String),
}

pub enum ReplyView {
    Status(u16),
    Failed(Seq<char>),
}

impl View for Reply {
    type V = ReplyView;

    open spec fn view(&self) -> ReplyView {
        match self {
            Reply::Status(code) => ReplyView::Status(*code),
            Reply::Failed(detail) => ReplyView::Failed(detail@),
        }
    }
}

/// How a result is to be shown.
#[derive(Clone, Copy, Debug, PartialEq, Eq, Structural)]
pub enum Emphasis {
    /// The name was claimed.
    Positive,
    /// Nothing happened: the name is still held, or the claim was turned down.
    Neutral,
    /// The lookup was throttled.
    Negative,
    /// A request did not get through.
    Failure,
}

/// What one round reports for one target.
pub struct RoundResult {
    pub name: String,
    pub identifier: String,
    pub status: String,
    pub important: bool,
    pub emphasis: Emphasis,
}

pub struct RoundResultView {
    pub name: Seq<char>,
    pub identifier: Seq<char>,
    pub status: Seq<char>,
    pub important: bool,
    pub emphasis: Emphasis,
}

impl View for RoundResult {
    type V = RoundResultView;

    open spec fn view(&self) -> RoundResultView {
        RoundResultView {
            name: self.name@,
            identifier: self.identifier@,
            status: self.status@,
            important: self.important,
            emphasis: self.emphasis,
        }
    }
}

/// The lookup endpoint answers "no content" for a free name and anything
/// else for a name that cannot be had now.
pub open spec fn is_available(status: u16) -> bool {
    status == STATUS_AVAILABLE
}

/// The claim endpoint answers "ok" when the claim went through.
pub open spec fn is_claimed(status: u16) -> bool {
    status == STATUS_CLAIMED
}

pub open spec fn is_rate_limit(status: u16) -> bool {
    status == STATUS_RATE_LIMITED
}

/// A lookup calls for a claim exactly when it was answered with the status
/// for a free name. A throttled or failed lookup never does.
pub open spec fn calls_for_claim(probe: ReplyView) -> bool {
    probe matches ReplyView::Status(code) && !is_rate_limit(code) && is_available(code)
}

pub open spec fn error_text(detail: Seq<char>) -> Seq<char> {
    "error: "@ + detail
}

pub open spec fn claimed_text(status: u16) -> Seq<char> {
    "claimed ("@ + decimal(status as nat) + ")"@
}

pub open spec fn claim_failed_text(status: u16) -> Seq<char> {
    "failed to claim ("@ + decimal(status as nat) + ")"@
}

pub open spec fn report(
    target: TargetView,
    status: Seq<char>,
    important: bool,
    emphasis: Emphasis,
) -> RoundResultView {
    RoundResultView { name: target.name, identifier: target.identifier, status, important, emphasis }
}

/// What is reported for a target whose lookup came back with `probe` and
/// does not call for a claim.
pub open spec fn probe_verdict(target: TargetView, probe: ReplyView) -> RoundResultView {
    match probe {
        ReplyView::Failed(detail) => report(target, error_text(detail), false, Emphasis::Failure),
        ReplyView::Status(code) => if is_rate_limit(code) {
            report(target, decimal(code as nat), false, Emphasis::Negative)
        } else {
            report(target, decimal(code as nat), false, Emphasis::Neutral)
        },
    }
}

/// What is reported for a target whose claim came back with `claim`.
pub open spec fn claim_verdict(target: TargetView, claim: ReplyView) -> RoundResultView {
    match claim {
        ReplyView::Failed(detail) => report(target, error_text(detail), false, Emphasis::Failure),
        ReplyView::Status(code) => if is_claimed(code) {
            report(target, claimed_text(code), true, Emphasis::Positive)
        } else {
            report(target, claim_failed_text(code), false, Emphasis::Neutral)
        },
    }
}

/// What a round reports for a target, given everything its task heard: the
/// answer to the lookup and, where one was made, the answer to the claim.
pub open spec fn verdict(
    target: TargetView,
    probe: ReplyView,
    claim: Option<ReplyView>,
) -> RoundResultView {
    if calls_for_claim(probe) && claim is Some {
        claim_verdict(target, claim->0)
    } else {
        probe_verdict(target, probe)
    }
}

/// Interprets the status of a lookup: whether the name is free, and the
/// status itself, kept for the caller to look at.
pub fn classify_probe(status: u16) -> (r: (bool, u16))
    ensures
        r.0 == is_available(status),
        r.1 == status,
{
    (status == STATUS_AVAILABLE, status)
}

/// Interprets the status of a claim: whether the name was taken over, and
/// the status itself.
pub fn classify_claim(status: u16) -> (r: (bool, u16))
    ensures
        r.0 == is_claimed(status),
        r.1 == status,
{
    (status == STATUS_CLAIMED, status)
}

pub fn is_rate_limited(status: u16) -> (b: bool)
    ensures
        b == is_rate_limit(status),
{
    status == STATUS_RATE_LIMITED
}

fn make_report(target: &Target, status: String, important: bool, emphasis: Emphasis) -> (r:
    RoundResult)
    ensures
        r@ == report(target@, status@, important, emphasis),
{
    RoundResult {
        name: target.name.clone(),
        identifier: target.identifier.clone(),
        status,
        important,
        emphasis,
    }
}

fn error_status(detail: &String) -> (s: String)
    ensures
        s@ == error_text(detail@),
{
    String::from_str("error: ").concat(detail.as_str())
}

fn bracketed_status(lead: &str, status: u16) -> (s: String)
    ensures
        s@ == lead@ + decimal(status as nat) + ")"@,
{
    let code = to_decimal(status as u64);
    String::from_str(lead).concat(code.as_str()).concat(")")
}

/// Decides what follows a lookup: `None` when the name is free and a claim
/// is to be attempted, otherwise the result to report at once.
pub fn settle_probe(target: &Target, probe: &Reply) -> (r: Option<RoundResult>)
    ensures
        r is None <==> calls_for_claim(probe@),
        r matches Some(result) ==> result@ == probe_verdict(target@, probe@),
{
    match probe {
        Reply::Failed(detail) => Some(
            make_report(target, error_status(detail), false, Emphasis::Failure),
        ),
        Reply::Status(code) => {
            if is_rate_limited(*code) {
                Some(make_report(target, to_decimal(*code as u64), false, Emphasis::Negative))
            } else if classify_probe(*code).0 {
                None
            } else {
                Some(make_report(target, to_decimal(*code as u64), false, Emphasis::Neutral))
            }
        },
    }
}

/// The result to report once the claim for a free name has been answered.
pub fn settle_claim(target: &Target, claim: &Reply) -> (r: RoundResult)
    ensures
        r@ == claim_verdict(target@, claim@),
{
    match claim {
        Reply::Failed(detail) => make_report(
            target,
            error_status(detail),
            false,
            Emphasis::Failure,
        ),
        Reply::Status(code) => {
            if classify_claim(*code).0 {
                make_report(target, bracketed_status("claimed (", *code), true, Emphasis::Positive)
            } else {
                make_report(
                    target,
                    bracketed_status("failed to claim (", *code),
                    false,
                    Emphasis::Neutral,
                )
            }
        },
    }
}

} // verus!
