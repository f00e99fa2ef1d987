//! Turning a requested invocation into one command line and deciding it
//! against a user's patterns: first match in list order wins.
use vstd::prelude::*;
use crate::matcher::{compile, compiles, finds, found_in};
use crate::policy::{string_views, Policy};

verus! {

/// Why a command line was refused.
#[derive(Clone, Copy, Debug, PartialEq, Eq, Structural)]
pub enum Denial {
    /// The policy lists no patterns for the user.
    UnknownUser,
    /// None of the user's patterns matches the command line.
    NoMatch,
}

/// The answer to "may this user run this command line?".
#[derive(Clone, Copy, Debug, PartialEq, Eq, Structural)]
pub enum Decision {
    Permit,
    Deny(Denial),
}

/// A pattern of the user's list that does not compile; deciding stops there.
#[derive(Debug)]
pub struct PatternError {
    /// Its place in the user's list, counted from 0.
    pub index: usize,
    /// Why it did not compile.
    pub error: regex::Error,
}

/// `p` with a `^` in front unless it starts with one, and a `$` behind unless
/// it ends with one.
pub open spec fn anchored(p: Seq<char>) -> Seq<char> {
    let head = if p.len() > 0 && p[0] == '^' {
        Seq::<char>::empty()
    } else {
        seq!['^']
    };
    let tail = if p.len() > 0 && p.last() == '$' {
        Seq::<char>::empty()
    } else {
        seq!['$']
    };
    head + p + tail
}

/// The words joined with one space between each two.
pub open spec fn joined(words: Seq<Seq<char>>) -> Seq<char>
    decreases words.len(),
{
    if words.len() == 0 {
        Seq::<char>::empty()
    } else if words.len() == 1 {
        words[0]
    } else {
        joined(words.drop_last()) + seq![' '] + words.last()
    }
}

/// The command line that stands for running `program` with `args`.
pub open spec fn wish_of(program: Seq<char>, args: Seq<Seq<char>>) -> Seq<char> {
    joined(seq![program] + args)
}

/// What trying one pattern on a command line gave.
#[derive(Clone, Copy, Debug, PartialEq, Eq, Structural)]
pub enum Trial {
    /// The pattern does not compile.
    Invalid,
    /// The pattern compiles and does not match.
    Miss,
    /// The pattern compiles and matches.
    Hit,
}

/// The first trial from place `k` on that is not a miss decides: a hit
/// permits, an invalid pattern is an error at its place. All misses deny.
pub open spec fn verdict_from(trials: Seq<Trial>, k: int) -> Result<Decision, int>
    decreases trials.len() - k,
{
    if k < 0 || k >= trials.len() {
        Ok(Decision::Deny(Denial::NoMatch))
    } else {
        match trials[k] {
            Trial::Invalid => Err(k),
            Trial::Hit => Ok(Decision::Permit),
            Trial::Miss => verdict_from(trials, k + 1),
        }
    }
}

/// The trial of pattern `p`, anchored, on `wish`.
pub open spec fn trial(p: Seq<char>, wish: Seq<char>) -> Trial {
    if !compiles(anchored(p)) {
        Trial::Invalid
    } else if finds(anchored(p), wish) {
        Trial::Hit
    } else {
        Trial::Miss
    }
}

pub open spec fn trials(patterns: Seq<Seq<char>>, wish: Seq<char>) -> Seq<Trial> {
    patterns.map_values(|p: Seq<char>| trial(p, wish))
}

/// The decision on `wish` by the patterns from place `k` on, or the place of
/// the first pattern that does not compile before one matches.
pub open spec fn evaluate_from(patterns: Seq<Seq<char>>, wish: Seq<char>, k: int) -> Result<
    Decision,
    int,
> {
    verdict_from(trials(patterns, wish), k)
}

pub open spec fn evaluate(patterns: Seq<Seq<char>>, wish: Seq<char>) -> Result<Decision, int> {
    evaluate_from(patterns, wish, 0)
}

/// The decision on `wish` for `user` under `policy`.
pub open spec fn authorization(
    policy: Map<Seq<char>, Seq<Seq<char>>>,
    user: Seq<char>,
    wish: Seq<char>,
) -> Result<Decision, int> {
    if policy.contains_key(user) {
        evaluate(policy[user], wish)
    } else {
        Ok(Decision::Deny(Denial::UnknownUser))
    }
}

/// Wraps `pattern` so that it can only match a whole command line.
pub fn anchor(pattern: &str) -> (r: String)
    ensures
        r@ == anchored(pattern@),
{
    let n = pattern.unicode_len();
    let starts = n > 0 && pattern.get_char(0) == '^';
    let ends = n > 0 && pattern.get_char(n - 1) == '$';
    proof {
        reveal_strlit("^");
        reveal_strlit("$");
    }
    let mut s = String::new();
    if !starts {
        s.append("^");
    }
    s.append(pattern);
    if !ends {
        s.append("$");
    }
    assert(s@ =~= anchored(pattern@));
    s
}

/// The command line that stands for running `program` with `args`: the words
/// joined with single spaces.
pub fn build_wish(program: &str, args: &Vec<String>) -> (r: String)
    ensures
        r@ == wish_of(program@, string_views(args@)),
{
    let ghost words = seq![program@] + string_views(args@);
    let mut s = String::new();
    s.append(program);
    assert(s@ =~= joined(words.subrange(0, 1)));
    let mut i: usize = 0;
    while i < args.len()
        invariant
            i <= args.len(),
            words == seq![program@] + string_views(args@),
            s@ == joined(words.subrange(0, i + 1)),
        decreases args.len() - i,
    {
        proof {
            reveal_strlit(" ");
        }
        s.append(" ");
        s.append(args[i].as_str());
        i = i + 1;
        assert(words.subrange(0, i + 1).drop_last() =~= words.subrange(0, i as int));
        assert(words[i as int] == args@[i - 1]@);
        assert(s@ =~= joined(words.subrange(0, i + 1)));
    }
    assert(words.subrange(0, i + 1) =~= words);
    s
}

/// Decides from the trials of a list of patterns, taken in order.
pub fn verdict(trials: &Vec<Trial>) -> (r: Result<Decision, usize>)
    ensures
        r is Ok ==> verdict_from(trials@, 0) == Ok::<Decision, int>(r->Ok_0),
        r is Err ==> verdict_from(trials@, 0) == Err::<Decision, int>(r->Err_0 as int),
{
    let mut k: usize = 0;
    while k < trials.len()
        invariant
            k <= trials.len(),
            verdict_from(trials@, k as int) == verdict_from(trials@, 0),
        decreases trials.len() - k,
    {
        match trials[k] {
            Trial::Invalid => {
                return Err(k);
            },
            Trial::Hit => {
                return Ok(Decision::Permit);
            },
            Trial::Miss => {},
        }
        k = k + 1;
    }
    Ok(Decision::Deny(Denial::NoMatch))
}

/// Tries the patterns in order on `wish`, each anchored: the first that
/// matches permits it, and a pattern that does not compile stops the search.
pub fn decide(patterns: &Vec<String>, wish: &String) -> (r: Result<Decision, PatternError>)
    ensures
        r is Ok ==> evaluate(string_views(patterns@), wish@) == Ok::<Decision, int>(r->Ok_0),
        r is Err ==> evaluate(string_views(patterns@), wish@) == Err::<Decision, int>(
            r->Err_0.index as int,
        ),
{
    let ghost pats = string_views(patterns@);
    let mut k: usize = 0;
    while k < patterns.len()
        invariant
            k <= patterns.len(),
            pats == string_views(patterns@),
            evaluate_from(pats, wish@, k as int) == evaluate(pats, wish@),
        decreases patterns.len() - k,
    {
        let full = anchor(patterns[k].as_str());
        match compile(full.as_str()) {
            Err(error) => {
                return Err(PatternError { index: k, error });
            },
            Ok(m) => {
                if found_in(&m, wish.as_str()) {
                    return Ok(Decision::Permit);
                }
            },
        }
        k = k + 1;
    }
    Ok(Decision::Deny(Denial::NoMatch))
}

/// Decides whether `user` may run `wish` under `policy`.
pub fn authorize(policy: &Policy, user: &String, wish: &String) -> (r: Result<
    Decision,
    PatternError,
>)
    ensures
        r is Ok ==> authorization(policy@, user@, wish@) == Ok::<Decision, int>(r->Ok_0),
        r is Err ==> authorization(policy@, user@, wish@) == Err::<Decision, int>(
            r->Err_0.index as int,
        ),
{
    match policy.patterns(user) {
        None => Ok(Decision::Deny(Denial::UnknownUser)),
        Some(patterns) => decide(patterns, wish),
    }
}

} // verus!
