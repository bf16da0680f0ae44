//! Finding a free name: the first candidate that nothing in the garden holds.

use crate::naming::{candidate, candidate_name, lemma_candidate_injective};
use vstd::prelude::*;

verus! {

/// `attempt` is the first whose candidate is free: its own name is not taken,
/// and the name of every earlier attempt is.
pub open spec fn is_first_free(slug: Seq<char>, taken: Set<Seq<char>>, attempt: nat) -> bool {
    &&& !taken.contains(candidate(slug, attempt))
    &&& forall|earlier: nat|
        earlier < attempt ==> taken.contains(#[trigger] candidate(slug, earlier))
}

/// The first attempt whose candidate is free.
pub open spec fn first_free_attempt(slug: Seq<char>, taken: Set<Seq<char>>) -> nat {
    choose|attempt: nat| is_first_free(slug, taken, attempt)
}

/// The name a note with this slug is published under, given the names already
/// in the garden.
pub open spec fn first_free(slug: Seq<char>, taken: Set<Seq<char>>) -> Seq<char> {
    candidate(slug, first_free_attempt(slug, taken))
}

/// The names given to a run of notes published one after another, each seeing
/// the garden as the ones before it left it.
pub open spec fn placements(slugs: Seq<Seq<char>>, taken: Set<Seq<char>>) -> Seq<Seq<char>>
    decreases slugs.len(),
{
    if slugs.len() == 0 {
        Seq::empty()
    } else {
        let earlier = placements(slugs.drop_last(), taken);
        earlier.push(first_free(slugs.last(), taken + earlier.to_set()))
    }
}

/// As long as every attempt so far found its name taken, there have been no
/// more attempts than there are names.
pub proof fn lemma_attempts_bounded(slug: Seq<char>, taken: Set<Seq<char>>, attempts: nat)
    requires
        taken.finite(),
        forall|earlier: nat|
            earlier < attempts ==> taken.contains(#[trigger] candidate(slug, earlier)),
    ensures
        attempts <= taken.len(),
    decreases attempts,
{
    if attempts > 0 {
        let last = (attempts - 1) as nat;
        let name = candidate(slug, last);
        assert(taken.contains(name));
        let others = taken.remove(name);
        assert forall|earlier: nat| earlier < last implies others.contains(
            #[trigger] candidate(slug, earlier),
        ) by {
            assert(taken.contains(candidate(slug, earlier)));
            if candidate(slug, earlier) == name {
                lemma_candidate_injective(slug, earlier, last);
            }
        }
        lemma_attempts_bounded(slug, others, last);
    }
}

/// Only one attempt can be the first free one.
pub proof fn lemma_first_free_unique(slug: Seq<char>, taken: Set<Seq<char>>, a: nat, b: nat)
    requires
        is_first_free(slug, taken, a),
        is_first_free(slug, taken, b),
    ensures
        a == b,
{
    if a < b {
        assert(taken.contains(candidate(slug, a)));
    } else if b < a {
        assert(taken.contains(candidate(slug, b)));
    }
}

/// An attempt known to be the first free one is the one `first_free_attempt`
/// names.
pub proof fn lemma_first_free_is(slug: Seq<char>, taken: Set<Seq<char>>, attempt: nat)
    requires
        is_first_free(slug, taken, attempt),
    ensures
        first_free_attempt(slug, taken) == attempt,
        first_free(slug, taken) == candidate(slug, attempt),
{
    lemma_first_free_unique(slug, taken, attempt, first_free_attempt(slug, taken));
}

/// In a garden of finitely many names a free candidate always exists, and it is
/// reached after at most as many attempts as there are names.
pub proof fn lemma_first_free_exists(slug: Seq<char>, taken: Set<Seq<char>>)
    requires
        taken.finite(),
    ensures
        is_first_free(slug, taken, first_free_attempt(slug, taken)),
        first_free_attempt(slug, taken) <= taken.len(),
        !taken.contains(first_free(slug, taken)),
{
    let found = lemma_search(slug, taken, 0);
    lemma_first_free_is(slug, taken, found);
    lemma_attempts_bounded(slug, taken, found);
}

/// Walks the attempts upward from `from` until one is free.
proof fn lemma_search(slug: Seq<char>, taken: Set<Seq<char>>, from: nat) -> (found: nat)
    requires
        taken.finite(),
        forall|earlier: nat| earlier < from ==> taken.contains(#[trigger] candidate(slug, earlier)),
    ensures
        is_first_free(slug, taken, found),
    decreases taken.len() - from,
{
    lemma_attempts_bounded(slug, taken, from);
    if taken.contains(candidate(slug, from)) {
        lemma_attempts_bounded(slug, taken, from + 1);
        lemma_search(slug, taken, from + 1)
    } else {
        from
    }
}

/// Publishing never takes a name that is in use: every name handed out was
/// free in the garden as it stood when the run began, and no two notes of the
/// run share one.
pub proof fn lemma_placements_never_overwrite(slugs: Seq<Seq<char>>, taken: Set<Seq<char>>)
    requires
        taken.finite(),
    ensures
        placements(slugs, taken).len() == slugs.len(),
        forall|i: int|
            0 <= i < slugs.len() ==> !taken.contains(#[trigger] placements(slugs, taken)[i]),
        forall|i: int, j: int|
            0 <= i < j < slugs.len() ==> placements(slugs, taken)[i] != placements(
                slugs,
                taken,
            )[j],
    decreases slugs.len(),
{
    if slugs.len() > 0 {
        let earlier = placements(slugs.drop_last(), taken);
        lemma_placements_never_overwrite(slugs.drop_last(), taken);
        let seen = taken + earlier.to_set();
        vstd::seq_lib::seq_to_set_is_finite(earlier);
        vstd::set_lib::lemma_set_union_finite_iff(taken, earlier.to_set());
        lemma_first_free_exists(slugs.last(), seen);
        let name = first_free(slugs.last(), seen);
        let all = placements(slugs, taken);
        assert(all == earlier.push(name));
        assert forall|i: int| 0 <= i < slugs.len() implies !taken.contains(#[trigger] all[i]) by {
            if i < earlier.len() {
                assert(all[i] == earlier[i]);
            }
        }
        assert forall|i: int, j: int| 0 <= i < j < slugs.len() implies all[i] != all[j] by {
            if j < earlier.len() {
                assert(all[i] == earlier[i] && all[j] == earlier[j]);
            } else {
                assert(earlier.to_set().contains(earlier[i]));
            }
        }
    }
}

/// Whether `name` is among `taken`.
fn is_taken(taken: &Vec<String>, name: &String) -> (found: bool)
    ensures
        found == taken.deep_view().to_set().contains(name@),
{
    let mut i: usize = 0;
    while i < taken.len()
        invariant
            i <= taken.len(),
            forall|j: int| 0 <= j < i ==> taken.deep_view()[j] != name@,
        decreases taken.len() - i,
    {
        assert(taken.deep_view()[i as int] == taken@[i as int]@);
        if taken[i] == *name {
            assert(taken.deep_view().contains(name@));
            return true;
        }
        i = i + 1;
    }
    false
}

/// The name under which a note with this slug can be published in a garden
/// that already holds the names in `taken`: the first candidate, counting up
/// from the bare slug, that is not among them.
pub fn first_free_name(slug: &str, taken: &Vec<String>) -> (name: String)
    ensures
        name@ == first_free(slug@, taken.deep_view().to_set()),
        !taken.deep_view().to_set().contains(name@),
{
    let ghost names = taken.deep_view().to_set();
    proof {
        vstd::seq_lib::seq_to_set_is_finite(taken.deep_view());
        taken.deep_view().lemma_cardinality_of_set();
        lemma_attempts_bounded(slug@, names, 0);
    }
    let mut attempt: usize = 0;
    loop
        invariant
            names == taken.deep_view().to_set(),
            names.finite(),
            names.len() <= taken.len(),
            attempt <= names.len(),
            forall|earlier: nat|
                earlier < attempt ==> names.contains(#[trigger] candidate(slug@, earlier)),
        decreases taken.len() - attempt,
    {
        let name = candidate_name(slug, attempt as u64);
        if !is_taken(taken, &name) {
            proof {
                lemma_first_free_is(slug@, names, attempt as nat);
            }
            return name;
        }
        proof {
            lemma_attempts_bounded(slug@, names, (attempt + 1) as nat);
        }
        attempt = attempt + 1;
    }
}

} // verus!
