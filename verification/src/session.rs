//! One run of the garden, from an empty scratch note to a published file, as a
//! state machine. The machine decides; a driver does the work. At every stage
//! [`Stage::request`] says what to do next, and [`Stage::advance`] takes the
//! outcome.
//!
//! Looking for a free name and moving the note onto it are two separate steps.
//! The machine guarantees that a move is only ever requested onto a name that
//! the driver has just said is free; it cannot rule out that another process
//! takes the name in between. The machine also never asks for a file to be
//! removed: when a step fails, the driver stops and the scratch note stays
//! where it is.
//!
//! The search for a free name has no upper bound of its own. It ends because a
//! garden holds finitely many files.

use crate::naming::{candidate, candidate_name};
use crate::placement::{first_free, first_free_attempt, lemma_first_free_exists};
use crate::prompt::{
    after_reply, ask_to_confirm, ask_to_enter, confirm_question, entry_question, opening, Prompt,
    PromptView,
};
use crate::slugs::{slug_of, slugify};
use crate::title::{resolve_title, resolved_title, seed, seed_text};
use vstd::prelude::*;

verus! {

/// Where a run stands.
#[derive(Clone, Debug, PartialEq, Eq)]
pub enum Stage {
    /// The scratch note is to be created, seeded and edited.
    Editing { title: Option<String> },
    /// A candidate title awaits the author's yes or no.
    Confirming { candidate: String },
    /// The author is to type a title.
    Entering,
    /// The candidate name of `attempt` is to be looked for in the garden.
    Probing { slug: String, attempt: u64 },
    /// The scratch note is to be moved onto `name`, which was found free.
    Moving { name: String },
    /// The note stands in the garden under `name`.
    Published { name: String },
}

/// What the driver reports back.
#[derive(Clone, Debug, PartialEq, Eq)]
pub enum Event {
    /// The editor has exited; the scratch note now reads `contents`.
    Edited { contents: String },
    /// The author answered a question with `line`.
    Replied { line: String },
    /// The garden was searched for the requested name.
    Probed { taken: bool },
    /// The scratch note was moved.
    Moved,
}

/// What the driver is asked to do.
#[derive(Clone, Debug, PartialEq, Eq)]
pub enum Action {
    /// Create the scratch note holding `seed`, run the editor on it, read it
    /// back.
    Edit { seed: String },
    /// Show `question` to the author and read one line of reply.
    Ask { question: String },
    /// Say whether the garden holds a file called `name`.
    Probe { name: String },
    /// Move the scratch note onto `name`.
    Move { name: String },
    /// Nothing is left to do.
    Stop,
}

/// A stage as contracts see it.
pub enum StageView {
    Editing { title: Option<Seq<char>> },
    Confirming { candidate: Seq<char> },
    Entering,
    Probing { slug: Seq<char>, attempt: nat },
    Moving { name: Seq<char> },
    Published { name: Seq<char> },
}

/// An event as contracts see it.
pub enum EventView {
    Edited { contents: Seq<char> },
    Replied { line: Seq<char> },
    Probed { taken: bool },
    Moved,
}

/// An action as contracts see it.
pub enum ActionView {
    Edit { seed: Seq<char> },
    Ask { question: Seq<char> },
    Probe { name: Seq<char> },
    Move { name: Seq<char> },
    Stop,
}

impl View for Stage {
    type V = StageView;

    open spec fn view(&self) -> StageView {
        match self {
            Stage::Editing { title } => StageView::Editing { title: title.deep_view() },
            Stage::Confirming { candidate } => StageView::Confirming { candidate: candidate@ },
            Stage::Entering => StageView::Entering,
            Stage::Probing { slug, attempt } => StageView::Probing {
                slug: slug@,
                attempt: *attempt as nat,
            },
            Stage::Moving { name } => StageView::Moving { name: name@ },
            Stage::Published { name } => StageView::Published { name: name@ },
        }
    }
}

impl View for Event {
    type V = EventView;

    open spec fn view(&self) -> EventView {
        match self {
            Event::Edited { contents } => EventView::Edited { contents: contents@ },
            Event::Replied { line } => EventView::Replied { line: line@ },
            Event::Probed { taken } => EventView::Probed { taken: *taken },
            Event::Moved => EventView::Moved,
        }
    }
}

impl View for Action {
    type V = ActionView;

    open spec fn view(&self) -> ActionView {
        match self {
            Action::Edit { seed } => ActionView::Edit { seed: seed@ },
            Action::Ask { question } => ActionView::Ask { question: question@ },
            Action::Probe { name } => ActionView::Probe { name: name@ },
            Action::Move { name } => ActionView::Move { name: name@ },
            Action::Stop => ActionView::Stop,
        }
    }
}

/// The stage that a conversation about the title leads to. While it goes on,
/// the run waits for the next reply; once the raw title is settled it is
/// slugged, once, and the search for a free name starts at the bare slug.
pub open spec fn naming(prompt: PromptView) -> StageView {
    match prompt {
        PromptView::Confirm { candidate } => StageView::Confirming { candidate },
        PromptView::Entry => StageView::Entering,
        PromptView::Done { raw } => StageView::Probing { slug: slug_of(raw), attempt: 0 },
    }
}

/// The stage that follows `stage` on `event`. An event that does not answer
/// what the stage asked for changes nothing.
pub open spec fn next(stage: StageView, event: EventView) -> StageView {
    match (stage, event) {
        (StageView::Editing { title }, EventView::Edited { contents }) => naming(
            opening(resolved_title(title, contents)),
        ),
        (StageView::Confirming { candidate }, EventView::Replied { line }) => naming(
            after_reply(PromptView::Confirm { candidate }, line),
        ),
        (StageView::Entering, EventView::Replied { line }) => naming(
            after_reply(PromptView::Entry, line),
        ),
        (StageView::Probing { slug, attempt }, EventView::Probed { taken }) => if taken {
            StageView::Probing { slug, attempt: attempt + 1 }
        } else {
            StageView::Moving { name: candidate(slug, attempt) }
        },
        (StageView::Moving { name }, EventView::Moved) => StageView::Published { name },
        _ => stage,
    }
}

/// What a stage asks of the driver.
pub open spec fn request(stage: StageView) -> ActionView {
    match stage {
        StageView::Editing { title } => ActionView::Edit { seed: seed(title) },
        StageView::Confirming { candidate } => ActionView::Ask {
            question: confirm_question(candidate),
        },
        StageView::Entering => ActionView::Ask { question: entry_question() },
        StageView::Probing { slug, attempt } => ActionView::Probe {
            name: candidate(slug, attempt),
        },
        StageView::Moving { name } => ActionView::Move { name },
        StageView::Published { name } => ActionView::Stop,
    }
}

/// Where a run stands after a sequence of events, taken in order.
pub open spec fn run(stage: StageView, events: Seq<EventView>) -> StageView
    decreases events.len(),
{
    if events.len() == 0 {
        stage
    } else {
        next(run(stage, events.drop_last()), events.last())
    }
}

/// Somewhere in `events` the driver was asked whether `name` is in the garden
/// and answered that it is not.
pub open spec fn found_free(start: StageView, events: Seq<EventView>, name: Seq<char>) -> bool {
    exists|i: int|
        0 <= i < events.len() && request(#[trigger] run(start, events.take(i)))
            == (ActionView::Probe { name }) && events[i] == (EventView::Probed { taken: false })
}

/// The answers a garden holding exactly the names in `taken` gives to the
/// first `count` probes for `slug`.
pub open spec fn probe_answers(slug: Seq<char>, taken: Set<Seq<char>>, count: nat) -> Seq<
    EventView,
> {
    Seq::new(count, |i: int| EventView::Probed { taken: taken.contains(candidate(slug, i as nat)) })
}

impl Stage {
    /// Whether `advance` can take `event` at this stage. It always can, short
    /// of a probe counter that has run through every number the machine has.
    pub open spec fn can_take(self, event: Event) -> bool {
        match (self, event) {
            (Stage::Probing { slug, attempt }, Event::Probed { taken }) => taken ==> attempt
                < u64::MAX,
            _ => true,
        }
    }

    /// Whether `advance` can take `event` at this stage.
    pub fn accepts(&self, event: &Event) -> (ok: bool)
        ensures
            ok == self.can_take(*event),
    {
        match (self, event) {
            (Stage::Probing { slug, attempt }, Event::Probed { taken }) => !*taken || *attempt
                < u64::MAX,
            _ => true,
        }
    }

    /// The first stage of a run, with the title the caller supplied, if any.
    pub fn begin(title: Option<String>) -> (stage: Stage)
        ensures
            stage@ == (StageView::Editing { title: title.deep_view() }),
    {
        Stage::Editing { title }
    }

    /// What the driver is to do at this stage.
    pub fn request(&self) -> (action: Action)
        ensures
            action@ == request(self@),
    {
        match self {
            Stage::Editing { title } => {
                let seed = match title {
                    Some(t) => seed_text(Some(t.as_str())),
                    None => seed_text(None),
                };
                Action::Edit { seed }
            },
            Stage::Confirming { candidate } => Action::Ask {
                question: ask_to_confirm(candidate.as_str()),
            },
            Stage::Entering => Action::Ask { question: ask_to_enter() },
            Stage::Probing { slug, attempt } => Action::Probe {
                name: candidate_name(slug.as_str(), *attempt),
            },
            Stage::Moving { name } => Action::Move { name: name.clone() },
            Stage::Published { name } => Action::Stop,
        }
    }

    /// Takes the outcome of the last request and moves on.
    pub fn advance(self, event: Event) -> (stage: Stage)
        requires
            self.can_take(event),
        ensures
            stage@ == next(self@, event@),
    {
        match (self, event) {
            (Stage::Editing { title }, Event::Edited { contents }) => {
                let title = resolve_title(title, contents.as_str());
                Stage::settle(Prompt::open(title))
            },
            (Stage::Confirming { candidate }, Event::Replied { line }) => {
                Stage::settle(Prompt::Confirm { candidate }.reply(line.as_str()))
            },
            (Stage::Entering, Event::Replied { line }) => {
                Stage::settle(Prompt::Entry.reply(line.as_str()))
            },
            (Stage::Probing { slug, attempt }, Event::Probed { taken }) => {
                if taken {
                    Stage::Probing { slug, attempt: attempt + 1 }
                } else {
                    Stage::Moving { name: candidate_name(slug.as_str(), attempt) }
                }
            },
            (Stage::Moving { name }, Event::Moved) => Stage::Published { name },
            (stage, _) => stage,
        }
    }

    /// The stage a conversation about the title leads to.
    pub fn settle(prompt: Prompt) -> (stage: Stage)
        ensures
            stage@ == naming(prompt@),
    {
        match prompt {
            Prompt::Confirm { candidate } => Stage::Confirming { candidate },
            Prompt::Entry => Stage::Entering,
            Prompt::Done { raw } => Stage::Probing { slug: slugify(raw.as_str()), attempt: 0 },
        }
    }

    /// The name the note was published under, once it has been.
    pub fn published(&self) -> (name: Option<&str>)
        ensures
            name.deep_view() == match self@ {
                StageView::Published { name } => Some(name),
                _ => None,
            },
    {
        match self {
            Stage::Published { name } => Some(name.as_str()),
            _ => None,
        }
    }
}

/// A move is requested only onto the name that the probe just before it found
/// free: a stage that newly asks for a move follows a probe for that very name
/// that was answered "not taken".
pub proof fn lemma_move_follows_free_probe(stage: StageView, event: EventView)
    requires
        next(stage, event) is Moving,
        !(stage is Moving),
    ensures
        event == (EventView::Probed { taken: false }),
        request(stage) == (ActionView::Probe { name: next(stage, event)->Moving_name }),
{
}

/// Whatever the driver reports and in whatever order, a run that asks for a
/// move onto a name, or that has published under it, has earlier asked whether
/// that name was in the garden and was told that it was not. No file that was
/// seen in the garden is ever the target of a move.
pub proof fn lemma_never_overwrites(start: StageView, events: Seq<EventView>, name: Seq<char>)
    requires
        !(start is Moving),
        !(start is Published),
        request(run(start, events)) == (ActionView::Move { name }) || run(start, events) == (
            StageView::Published { name }
        ),
    ensures
        found_free(start, events, name),
    decreases events.len(),
{
    if events.len() > 0 {
        let before = events.drop_last();
        let prev = run(start, before);
        if prev == (StageView::Moving { name }) || prev == (StageView::Published { name }) {
            lemma_never_overwrites(start, before, name);
            let i = choose|i: int|
                0 <= i < before.len() && request(#[trigger] run(start, before.take(i))) == (
                    ActionView::Probe { name }
                ) && before[i] == (EventView::Probed { taken: false });
            assert(before.take(i) =~= events.take(i));
            assert(events[i] == before[i]);
        } else {
            let i = events.len() - 1;
            assert(events.take(i) =~= before);
            assert(request(run(start, events.take(i))) == (ActionView::Probe { name }));
        }
    }
}

/// Against a garden that holds a fixed, finite set of names, probing from the
/// bare slug upward ends with a move onto the first free candidate.
pub proof fn lemma_probing_finds_first_free(slug: Seq<char>, taken: Set<Seq<char>>)
    requires
        taken.finite(),
    ensures
        run(
            StageView::Probing { slug, attempt: 0 },
            probe_answers(slug, taken, first_free_attempt(slug, taken) + 1),
        ) == (StageView::Moving { name: first_free(slug, taken) }),
{
    lemma_first_free_exists(slug, taken);
    let last = first_free_attempt(slug, taken);
    lemma_probing_counts_up(slug, taken, last);
    let answers = probe_answers(slug, taken, last + 1);
    assert(answers.drop_last() =~= probe_answers(slug, taken, last));
}

/// While the probed names are all taken, the run keeps probing, one attempt
/// further each time.
pub proof fn lemma_probing_counts_up(slug: Seq<char>, taken: Set<Seq<char>>, count: nat)
    requires
        forall|earlier: nat| earlier < count ==> taken.contains(#[trigger] candidate(slug, earlier)),
    ensures
        run(StageView::Probing { slug, attempt: 0 }, probe_answers(slug, taken, count)) == (
            StageView::Probing { slug, attempt: count }
        ),
    decreases count,
{
    if count > 0 {
        let before = (count - 1) as nat;
        lemma_probing_counts_up(slug, taken, before);
        let answers = probe_answers(slug, taken, count);
        assert(answers.drop_last() =~= probe_answers(slug, taken, before));
        assert(taken.contains(candidate(slug, before)));
    }
}

} // verus!
