//! Properties of anchoring and of first-match authorization.
use vstd::prelude::*;
use crate::authorize::{anchored, authorization, evaluate, evaluate_from, Decision, Denial};
use crate::matcher::{compiles, finds};
use crate::policy::Policy;

verus! {

/// A user that the policy does not list is always refused.
pub proof fn absent_user_denied(policy: Policy, user: Seq<char>, wish: Seq<char>)
    requires
        !policy@.contains_key(user),
    ensures
        authorization(policy@, user, wish) == Ok::<Decision, int>(Decision::Deny(Denial::UnknownUser)),
{
}

/// Anchoring a pattern that already starts with `^` and ends with `$` leaves
/// it as it is.
pub proof fn anchoring_keeps_anchored(p: Seq<char>)
    requires
        p.len() >= 2,
        p[0] == '^',
        p.last() == '$',
    ensures
        anchored(p) == p,
{
    assert(anchored(p) =~= p);
}

/// Anchoring twice is anchoring once.
pub proof fn anchoring_idempotent(p: Seq<char>)
    ensures
        anchored(anchored(p)) == anchored(p),
{
    let a = anchored(p);
    assert(a[0] == '^');
    assert(a.last() == '$');
    assert(anchored(a) =~= a);
}

/// A pattern with neither anchor gets exactly one `^` in front and one `$`
/// behind, and is otherwise unchanged.
pub proof fn anchoring_adds_one_each(p: Seq<char>)
    requires
        !(p.len() > 0 && p[0] == '^'),
        !(p.len() > 0 && p.last() == '$'),
    ensures
        anchored(p) == seq!['^'] + p + seq!['$'],
        anchored(p).len() == p.len() + 2,
        anchored(p).subrange(1, p.len() as int + 1) == p,
        p.len() > 0 ==> anchored(p)[1] != '^' && anchored(p)[p.len() as int] != '$',
{
    assert(anchored(p).subrange(1, p.len() as int + 1) =~= p);
}

proof fn lemma_prefix_decides(
    patterns: Seq<Seq<char>>,
    more: Seq<Seq<char>>,
    wish: Seq<char>,
    k: int,
    j: int,
)
    requires
        0 <= j <= k < patterns.len(),
        forall|i: int|
            0 <= i < k ==> compiles(anchored(#[trigger] patterns[i])) && !finds(
                anchored(patterns[i]),
                wish,
            ),
    ensures
        evaluate_from(patterns, wish, j) == evaluate_from(patterns, wish, k),
        evaluate_from(patterns.take(k + 1) + more, wish, j) == evaluate_from(
            patterns.take(k + 1) + more,
            wish,
            k,
        ),
    decreases k - j,
{
    let q = patterns.take(k + 1) + more;
    assert(q[j] == patterns[j]);
    if j < k {
        lemma_prefix_decides(patterns, more, wish, k, j + 1);
    }
}

/// Patterns are tried in list order: once one compiles and matches, the
/// command line is permitted, and the patterns after it, whatever they are,
/// play no part (even ones that would not compile).
pub proof fn first_match_wins(
    patterns: Seq<Seq<char>>,
    k: int,
    more: Seq<Seq<char>>,
    wish: Seq<char>,
)
    requires
        0 <= k < patterns.len(),
        forall|i: int|
            0 <= i < k ==> compiles(anchored(#[trigger] patterns[i])) && !finds(
                anchored(patterns[i]),
                wish,
            ),
        compiles(anchored(patterns[k])),
        finds(anchored(patterns[k]), wish),
    ensures
        evaluate(patterns, wish) == Ok::<Decision, int>(Decision::Permit),
        evaluate(patterns.take(k + 1) + more, wish) == Ok::<Decision, int>(Decision::Permit),
{
    lemma_prefix_decides(patterns, more, wish, k, 0);
    assert((patterns.take(k + 1) + more)[k] == patterns[k]);
}

/// A pattern that does not compile, reached before any pattern matches,
/// stops the decision with an error naming its place, even where a later
/// pattern would match.
pub proof fn broken_pattern_stops(patterns: Seq<Seq<char>>, k: int, wish: Seq<char>)
    requires
        0 <= k < patterns.len(),
        forall|i: int|
            0 <= i < k ==> compiles(anchored(#[trigger] patterns[i])) && !finds(
                anchored(patterns[i]),
                wish,
            ),
        !compiles(anchored(patterns[k])),
    ensures
        evaluate(patterns, wish) == Err::<Decision, int>(k),
{
    lemma_prefix_decides(patterns, Seq::empty(), wish, k, 0);
}

} // verus!
