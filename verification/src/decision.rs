//! The moderation decision that follows from a score.
//!
//! One inbound item leads to exactly one [`Decision`]. Nothing is kept from
//! one item to the next.

use crate::score::{get_gong_fu_possibility, notify_threshold, score_of, Ratio, Score};
use crate::syllables::suspect_syllables;
use vstd::prelude::*;
use vstd::string::StringExecFns;

verus! {

/// The notice sent when the bearer of `name` is removed. It says that the
/// removal can be undone by adding the member again.
pub open spec fn removal_notice(name: Seq<char>) -> Seq<char> {
    name + " 極有可能是廣告 - 決定踢出，可自動拉回。"@
}

/// The notice that asks administrators to look at the bearer of `name`.
pub open spec fn warning_notice(name: Seq<char>) -> Seq<char> {
    name + " 可能是廣告，請管理員留意。"@
}

/// What a [`Decision`] says, over plain values.
pub enum Outcome {
    NoAction,
    Notify(Seq<char>),
    Remove(int, Seq<char>),
}

/// The outcome that a score calls for: removal at exactly one, a notice to
/// the administrators from the notify threshold up, and nothing below it.
pub open spec fn outcome(score: Ratio, target: int, name: Seq<char>) -> Outcome {
    if score.is_one() {
        Outcome::Remove(target, removal_notice(name))
    } else if score.at_least(notify_threshold()) {
        Outcome::Notify(warning_notice(name))
    } else {
        Outcome::NoAction
    }
}

/// What is to be done about one inbound item.
#[derive(Debug, PartialEq, Eq)]
pub enum Decision {
    /// Nothing is sent and nobody is removed.
    NoAction,
    /// `text` is sent to the chat; nobody is removed.
    Notify { text: String },
    /// `text` is sent to the chat and `target` is removed from it.
    Remove { target: i64, text: String },
}

impl View for Decision {
    type V = Outcome;

    open spec fn view(&self) -> Outcome {
        match self {
            Decision::NoAction => Outcome::NoAction,
            Decision::Notify { text } => Outcome::Notify(text@),
            Decision::Remove { target, text } => Outcome::Remove(*target as int, text@),
        }
    }
}

/// Which text of an inbound item is scored.
#[derive(Debug, Clone, Copy, PartialEq, Eq)]
pub enum Mode {
    /// The display name of the sender.
    DisplayName,
    /// The body of the message.
    MessageBody,
}

/// Who sent an inbound item.
#[derive(Debug, PartialEq, Eq)]
pub struct Sender {
    /// The id by which the chat platform knows the sender.
    pub id: i64,
    /// The name that the chat shows for the sender.
    pub display_name: String,
}

/// The text that stands for a message without a body.
pub open spec fn missing_body() -> Seq<char> {
    "<?>"@
}

/// The text of an inbound item that is scored under `mode`.
pub open spec fn subject_of(mode: Mode, body: Option<Seq<char>>, display_name: Seq<char>) -> Seq<
    char,
> {
    match mode {
        Mode::DisplayName => display_name,
        Mode::MessageBody => match body {
            Some(b) => b,
            None => missing_body(),
        },
    }
}

/// The body of a message, if it has one, as a sequence of characters.
pub open spec fn body_view(body: Option<&str>) -> Option<Seq<char>> {
    match body {
        Some(b) => Some(b@),
        None => None,
    }
}

/// The outcome for an inbound item: nothing without a sender, else what the
/// score of the item's subject calls for.
pub open spec fn outcome_of_item(
    mode: Mode,
    sender: Option<(int, Seq<char>)>,
    body: Option<Seq<char>>,
) -> Outcome {
    match sender {
        None => Outcome::NoAction,
        Some((id, display_name)) => {
            let subject = subject_of(mode, body, display_name);
            outcome(score_of(subject, suspect_syllables()), id, subject)
        },
    }
}

/// The sender of an inbound item, if it has one, over plain values.
pub open spec fn sender_view(sender: Option<&Sender>) -> Option<(int, Seq<char>)> {
    match sender {
        Some(s) => Some((s.id as int, s.display_name@)),
        None => None,
    }
}

/// Decides what to do about the bearer of `name`, whose id is `target`,
/// given the score of the name.
pub fn decide(score: &Score, target: i64, name: &str) -> (decision: Decision)
    ensures
        decision@ == outcome(score@, target as int, name@),
{
    if score.is_one() {
        let text = name.to_owned().concat(" 極有可能是廣告 - 決定踢出，可自動拉回。");
        Decision::Remove { target, text }
    } else if score.at_least(&Score::notify_threshold()) {
        let text = name.to_owned().concat(" 可能是廣告，請管理員留意。");
        Decision::Notify { text }
    } else {
        Decision::NoAction
    }
}

/// Scores `name` and decides what to do about its bearer, whose id is `target`.
pub fn moderate(target: i64, name: &str) -> (decision: Decision)
    ensures
        decision@ == outcome(score_of(name@, suspect_syllables()), target as int, name@),
{
    let score = get_gong_fu_possibility(name);
    decide(&score, target, name)
}

/// Picks the text of an inbound item that is scored under `mode`.
pub fn subject_text(mode: Mode, body: Option<&str>, display_name: &str) -> (text: String)
    ensures
        text@ == subject_of(mode, body_view(body), display_name@),
{
    match mode {
        Mode::DisplayName => display_name.to_owned(),
        Mode::MessageBody => match body {
            Some(b) => b.to_owned(),
            None => "<?>".to_owned(),
        },
    }
}

/// Decides what to do about one inbound item. An item without a sender is
/// left alone.
pub fn handle(mode: Mode, sender: Option<&Sender>, body: Option<&str>) -> (decision: Decision)
    ensures
        decision@ == outcome_of_item(mode, sender_view(sender), body_view(body)),
{
    match sender {
        None => Decision::NoAction,
        Some(s) => {
            let subject = subject_text(mode, body, s.display_name.as_str());
            moderate(s.id, subject.as_str())
        },
    }
}

} // verus!
