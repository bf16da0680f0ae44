//! The conversation that settles a note's raw title: confirm the candidate, or
//! type a new one.

use crate::style::{blue, bold, green, in_blue, in_bold, in_green};
use vstd::prelude::*;

verus! {

/// What a reply to the question "do you want a different title?" means.
#[derive(Clone, Copy, Debug, PartialEq, Eq, Structural)]
pub enum Answer {
    /// `y` or `Y`: the candidate is dropped and a new title will be typed.
    Replace,
    /// `n`, `N` or an empty line: the candidate stays.
    Keep,
    /// Anything else: the question is asked again.
    Unclear,
}

/// Reads a reply to the confirmation question. An empty reply keeps the
/// candidate: "no" is the default.
pub open spec fn answer_of(reply: Seq<char>) -> Answer {
    if reply.len() == 0 {
        Answer::Keep
    } else if reply.len() == 1 && (reply[0] == 'y' || reply[0] == 'Y') {
        Answer::Replace
    } else if reply.len() == 1 && (reply[0] == 'n' || reply[0] == 'N') {
        Answer::Keep
    } else {
        Answer::Unclear
    }
}

/// Reads a reply to the confirmation question.
pub fn classify(reply: &str) -> (answer: Answer)
    ensures
        answer == answer_of(reply@),
{
    let len: usize = reply.unicode_len();
    if len == 0 {
        Answer::Keep
    } else if len == 1 {
        let c = reply.get_char(0);
        if c == 'y' || c == 'Y' {
            Answer::Replace
        } else if c == 'n' || c == 'N' {
            Answer::Keep
        } else {
            Answer::Unclear
        }
    } else {
        Answer::Unclear
    }
}

/// Where the conversation stands.
#[derive(Clone, Debug, PartialEq, Eq)]
pub enum Prompt {
    /// A candidate title is on the table and awaits a yes or no.
    Confirm { candidate: String },
    /// A title is to be typed; whatever comes is taken.
    Entry,
    /// The raw title is settled.
    Done { raw: String },
}

/// A conversation as contracts see it.
pub enum PromptView {
    Confirm { candidate: Seq<char> },
    Entry,
    Done { raw: Seq<char> },
}

impl View for Prompt {
    type V = PromptView;

    open spec fn view(&self) -> PromptView {
        match self {
            Prompt::Confirm { candidate } => PromptView::Confirm { candidate: candidate@ },
            Prompt::Entry => PromptView::Entry,
            Prompt::Done { raw } => PromptView::Done { raw: raw@ },
        }
    }
}

/// How a conversation opens: with a candidate to confirm if there is one, with
/// a request to type a title if not.
pub open spec fn opening(title: Option<Seq<char>>) -> PromptView {
    match title {
        Some(t) => PromptView::Confirm { candidate: t },
        None => PromptView::Entry,
    }
}

/// How one reply moves a conversation on.
pub open spec fn after_reply(prompt: PromptView, reply: Seq<char>) -> PromptView {
    match prompt {
        PromptView::Confirm { candidate } => match answer_of(reply) {
            Answer::Replace => PromptView::Entry,
            Answer::Keep => PromptView::Done { raw: candidate },
            Answer::Unclear => PromptView::Confirm { candidate },
        },
        PromptView::Entry => PromptView::Done { raw: reply },
        PromptView::Done { raw } => PromptView::Done { raw },
    }
}

/// The question that asks for a title to be typed.
pub open spec fn entry_question() -> Seq<char> {
    bold(blue("Enter filename\n> "@))
}

/// The question that shows a candidate title and asks whether a different one
/// is wanted. The capital `N` marks the default.
pub open spec fn confirm_question(candidate: Seq<char>) -> Seq<char> {
    "current title "@ + green(bold(candidate)) + "\nDo you want a different title? (y/"@ + bold(
        "N"@,
    ) + "): "@
}

/// What a conversation asks next; nothing once it is settled.
pub open spec fn question(prompt: PromptView) -> Option<Seq<char>> {
    match prompt {
        PromptView::Confirm { candidate } => Some(confirm_question(candidate)),
        PromptView::Entry => Some(entry_question()),
        PromptView::Done { raw } => None,
    }
}

/// The text that asks for a title to be typed.
pub fn ask_to_enter() -> (text: String)
    ensures
        text@ == entry_question(),
{
    in_bold(in_blue("Enter filename\n> ").as_str())
}

/// The text that shows `candidate` and asks whether a different title is
/// wanted.
pub fn ask_to_confirm(candidate: &str) -> (text: String)
    ensures
        text@ == confirm_question(candidate@),
{
    let mut text = String::from_str("current title ");
    text.append(in_green(in_bold(candidate).as_str()).as_str());
    text.append("\nDo you want a different title? (y/");
    text.append(in_bold("N").as_str());
    text.append("): ");
    assert(text@ =~= confirm_question(candidate@));
    text
}

/// Where a conversation stands after a run of replies, taken in order.
pub open spec fn after_replies(prompt: PromptView, replies: Seq<Seq<char>>) -> PromptView
    decreases replies.len(),
{
    if replies.len() == 0 {
        prompt
    } else {
        after_reply(after_replies(prompt, replies.drop_last()), replies.last())
    }
}

impl Prompt {
    /// Opens the conversation for a title that may or may not be known yet.
    pub fn open(title: Option<String>) -> (prompt: Prompt)
        ensures
            prompt@ == opening(title.deep_view()),
    {
        match title {
            Some(candidate) => Prompt::Confirm { candidate },
            None => Prompt::Entry,
        }
    }

    /// Takes one line of reply.
    pub fn reply(self, line: &str) -> (prompt: Prompt)
        ensures
            prompt@ == after_reply(self@, line@),
    {
        match self {
            Prompt::Confirm { candidate } => match classify(line) {
                Answer::Replace => Prompt::Entry,
                Answer::Keep => Prompt::Done { raw: candidate },
                Answer::Unclear => Prompt::Confirm { candidate },
            },
            Prompt::Entry => Prompt::Done { raw: String::from_str(line) },
            Prompt::Done { raw } => Prompt::Done { raw },
        }
    }

    /// The text to show the author before reading the next reply.
    pub fn question(&self) -> (text: Option<String>)
        ensures
            text.deep_view() == question(self@),
    {
        match self {
            Prompt::Confirm { candidate } => Some(ask_to_confirm(candidate.as_str())),
            Prompt::Entry => Some(ask_to_enter()),
            Prompt::Done { raw } => None,
        }
    }

    /// The settled raw title, once there is one.
    pub fn settled(&self) -> (raw: Option<&str>)
        ensures
            raw.deep_view() == settled_title(self@),
    {
        match self {
            Prompt::Done { raw } => Some(raw.as_str()),
            _ => None,
        }
    }
}

/// The raw title a conversation has settled on, if it has.
pub open spec fn settled_title(prompt: PromptView) -> Option<Seq<char>> {
    match prompt {
        PromptView::Done { raw } => Some(raw),
        _ => None,
    }
}

/// A confirmation that is only ever answered unclearly never moves: the same
/// candidate is still on the table.
pub proof fn lemma_unclear_replies_ask_again(candidate: Seq<char>, replies: Seq<Seq<char>>)
    requires
        forall|i: int| 0 <= i < replies.len() ==> answer_of(#[trigger] replies[i]) == Answer::Unclear,
    ensures
        after_replies(PromptView::Confirm { candidate }, replies) == (PromptView::Confirm {
            candidate,
        }),
    decreases replies.len(),
{
    if replies.len() > 0 {
        lemma_unclear_replies_ask_again(candidate, replies.drop_last());
    }
}

/// A settled conversation stays settled, whatever else is said.
pub proof fn lemma_settled_is_final(raw: Seq<char>, replies: Seq<Seq<char>>)
    ensures
        after_replies(PromptView::Done { raw }, replies) == (PromptView::Done { raw }),
    decreases replies.len(),
{
    if replies.len() > 0 {
        lemma_settled_is_final(raw, replies.drop_last());
    }
}

} // verus!
