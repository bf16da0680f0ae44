//! File names for published notes: `{slug}.md` first, then `{slug}-01.md`,
//! `{slug}-02.md`, and so on.

use crate::slugs::{is_slug, is_slug_char};
use vstd::prelude::*;

verus! {

/// The extension every note carries.
pub open spec fn extension() -> Seq<char> {
    seq!['.', 'm', 'd']
}

/// The character for a single decimal digit.
pub open spec fn digit(d: nat) -> char
    recommends
        d < 10,
{
    if d == 0 {
        '0'
    } else if d == 1 {
        '1'
    } else if d == 2 {
        '2'
    } else if d == 3 {
        '3'
    } else if d == 4 {
        '4'
    } else if d == 5 {
        '5'
    } else if d == 6 {
        '6'
    } else if d == 7 {
        '7'
    } else if d == 8 {
        '8'
    } else {
        '9'
    }
}

/// `n` in decimal, most significant digit first, without leading zeros.
pub open spec fn decimal(n: nat) -> Seq<char>
    decreases n,
{
    if n < 10 {
        seq![digit(n)]
    } else {
        decimal(n / 10).push(digit(n % 10))
    }
}

/// The counter that marks a retry: `n` in decimal, padded with a zero to two
/// digits. Past 99 it simply grows.
pub open spec fn counter(n: nat) -> Seq<char> {
    if n < 10 {
        seq!['0', digit(n)]
    } else {
        decimal(n)
    }
}

/// The file name tried at a given attempt. Attempt 0 is the bare slug; every
/// later attempt appends a dash and its counter.
pub open spec fn candidate(slug: Seq<char>, attempt: nat) -> Seq<char> {
    if attempt == 0 {
        slug + extension()
    } else {
        slug + seq!['-'] + counter(attempt) + extension()
    }
}

/// A decimal rendering is never empty and has no leading zero, except for zero
/// itself; two digits or more are needed from ten on.
pub proof fn lemma_decimal_shape(n: nat)
    ensures
        decimal(n).len() >= 1,
        n >= 10 ==> decimal(n).len() >= 2,
        n > 0 ==> decimal(n)[0] != '0',
    decreases n,
{
    if n >= 10 {
        lemma_decimal_shape(n / 10);
    }
}

/// Different numbers have different decimal renderings.
pub proof fn lemma_decimal_injective(a: nat, b: nat)
    requires
        decimal(a) == decimal(b),
    ensures
        a == b,
    decreases a,
{
    lemma_decimal_shape(a);
    lemma_decimal_shape(b);
    if a >= 10 && b >= 10 {
        let da = decimal(a / 10);
        let db = decimal(b / 10);
        assert(da.push(digit(a % 10)).len() == db.push(digit(b % 10)).len());
        assert(da.push(digit(a % 10)).last() == db.push(digit(b % 10)).last());
        assert(da =~= da.push(digit(a % 10)).drop_last());
        assert(db =~= db.push(digit(b % 10)).drop_last());
        lemma_decimal_injective(a / 10, b / 10);
    } else if a < 10 && b < 10 {
        assert(decimal(a)[0] == decimal(b)[0]);
    }
}

/// Different attempts carry different counters.
pub proof fn lemma_counter_injective(a: nat, b: nat)
    requires
        counter(a) == counter(b),
    ensures
        a == b,
{
    lemma_decimal_shape(a);
    lemma_decimal_shape(b);
    if a < 10 && b < 10 {
        assert(counter(a)[1] == counter(b)[1]);
    } else if a >= 10 && b >= 10 {
        lemma_decimal_injective(a, b);
    } else {
        assert(counter(a)[0] == counter(b)[0]);
    }
}

/// How long a candidate is: the slug and the extension, and from the first retry
/// on a dash and the counter as well.
pub proof fn lemma_candidate_len(slug: Seq<char>, attempt: nat)
    ensures
        attempt == 0 ==> candidate(slug, attempt).len() == slug.len() + 3,
        attempt > 0 ==> candidate(slug, attempt).len() == slug.len() + 1 + counter(attempt).len()
            + 3,
        attempt > 0 ==> counter(attempt).len() >= 2,
{
    lemma_decimal_shape(attempt);
    assert(extension().len() == 3);
    assert(seq!['-'].len() == 1);
}

/// For one slug, no two attempts share a file name.
pub proof fn lemma_candidate_injective(slug: Seq<char>, a: nat, b: nat)
    requires
        candidate(slug, a) == candidate(slug, b),
    ensures
        a == b,
{
    lemma_decimal_shape(a);
    lemma_decimal_shape(b);
    let ca = counter(a);
    let cb = counter(b);
    lemma_candidate_len(slug, a);
    lemma_candidate_len(slug, b);
    if a > 0 && b > 0 {
        let head = slug + seq!['-'];
        assert forall|i: int| 0 <= i < ca.len() implies ca[i] == cb[i] by {
            assert(candidate(slug, a)[head.len() + i] == ca[i]);
            assert(candidate(slug, b)[head.len() + i] == cb[i]);
        }
        assert(ca =~= cb);
        lemma_counter_injective(a, b);
    } else if a > 0 || b > 0 {
        assert(candidate(slug, a).len() != candidate(slug, b).len());
    }
}

/// A decimal rendering holds digits only.
pub proof fn lemma_decimal_digits(n: nat)
    ensures
        forall|i: int| 0 <= i < decimal(n).len() ==> '0' <= #[trigger] decimal(n)[i] <= '9',
    decreases n,
{
    if n >= 10 {
        lemma_decimal_digits(n / 10);
        let front = decimal(n / 10);
        assert forall|i: int| 0 <= i < decimal(n).len() implies '0' <= #[trigger] decimal(n)[i]
            <= '9' by {
            if i < front.len() {
                assert(decimal(n)[i] == front[i]);
            }
        }
    }
}

/// A candidate built on a slug is a plain file name: lowercase letters,
/// digits, dashes and the dot of its extension, so no path separator and no
/// way out of the garden.
pub proof fn lemma_candidate_is_plain(slug: Seq<char>, attempt: nat)
    requires
        is_slug(slug),
    ensures
        forall|i: int|
            0 <= i < candidate(slug, attempt).len() ==> {
                let c = #[trigger] candidate(slug, attempt)[i];
                is_slug_char(c) || c == '.'
            },
{
    lemma_decimal_digits(attempt);
    lemma_candidate_len(slug, attempt);
    let name = candidate(slug, attempt);
    assert forall|i: int| 0 <= i < name.len() implies is_slug_char(#[trigger] name[i]) || name[i]
        == '.' by {
        if i < slug.len() {
            assert(name[i] == slug[i]);
        } else if attempt == 0 {
            assert(name[i] == extension()[i - slug.len()]);
        } else if i == slug.len() {
            assert(name[i] == '-');
        } else if i < slug.len() + 1 + counter(attempt).len() {
            assert(name[i] == counter(attempt)[i - slug.len() - 1]);
        } else {
            assert(name[i] == extension()[i - slug.len() - 1 - counter(attempt).len()]);
        }
    }
}

/// The extension as text.
pub fn extension_text() -> (text: &'static str)
    ensures
        text@ == extension(),
{
    proof {
        reveal_strlit(".md");
    }
    assert(".md"@ =~= extension());
    ".md"
}

/// The one-character text of a decimal digit.
fn digit_text(d: u64) -> (text: &'static str)
    requires
        d < 10,
    ensures
        text@ == seq![digit(d as nat)],
{
    proof {
        reveal_strlit("0");
        reveal_strlit("1");
        reveal_strlit("2");
        reveal_strlit("3");
        reveal_strlit("4");
        reveal_strlit("5");
        reveal_strlit("6");
        reveal_strlit("7");
        reveal_strlit("8");
        reveal_strlit("9");
    }
    let text = if d == 0 {
        "0"
    } else if d == 1 {
        "1"
    } else if d == 2 {
        "2"
    } else if d == 3 {
        "3"
    } else if d == 4 {
        "4"
    } else if d == 5 {
        "5"
    } else if d == 6 {
        "6"
    } else if d == 7 {
        "7"
    } else if d == 8 {
        "8"
    } else {
        "9"
    };
    assert(text@ =~= seq![digit(d as nat)]);
    text
}

/// Appends `n` in decimal to `out`.
fn append_decimal(out: &mut String, n: u64)
    ensures
        final(out)@ == old(out)@ + decimal(n as nat),
    decreases n,
{
    if n >= 10 {
        append_decimal(out, n / 10);
    }
    out.append(digit_text(n % 10));
    assert(out@ =~= old(out)@ + decimal(n as nat));
}

/// The file name to try at `attempt` for a note whose slug is `slug`.
pub fn candidate_name(slug: &str, attempt: u64) -> (name: String)
    ensures
        name@ == candidate(slug@, attempt as nat),
{
    let mut name = String::from_str(slug);
    proof {
        reveal_strlit("-");
        reveal_strlit("0");
        reveal_strlit(".md");
    }
    if attempt > 0 {
        name.append("-");
        if attempt < 10 {
            name.append("0");
        }
        append_decimal(&mut name, attempt);
    }
    name.append(".md");
    assert(name@ =~= candidate(slug@, attempt as nat));
    name
}

} // verus!
