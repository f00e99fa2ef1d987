//! The per-user lists of patterns.
use vstd::prelude::*;

verus! {

/// The patterns of the last entry for `user` in `rules`.
pub open spec fn lookup(rules: Seq<(Seq<char>, Seq<Seq<char>>)>, user: Seq<char>) -> Option<
    Seq<Seq<char>>,
>
    decreases rules.len(),
{
    if rules.len() == 0 {
        None
    } else if rules.last().0 == user {
        Some(rules.last().1)
    } else {
        lookup(rules.drop_last(), user)
    }
}

pub open spec fn string_views(v: Seq<String>) -> Seq<Seq<char>> {
    v.map_values(|s: String| s@)
}

/// For each user, the patterns that may authorize that user's command lines,
/// in the order in which they are tried.
pub struct Policy {
    entries: Vec<(String, Vec<String>)>,
}

impl Policy {
    pub closed spec fn rules(&self) -> Seq<(Seq<char>, Seq<Seq<char>>)> {
        self.entries@.map_values(|e: (String, Vec<String>)| (e.0@, string_views(e.1@)))
    }
}

impl View for Policy {
    type V = Map<Seq<char>, Seq<Seq<char>>>;

    open spec fn view(&self) -> Map<Seq<char>, Seq<Seq<char>>> {
        Map::new(|u: Seq<char>| lookup(self.rules(), u) is Some, |u: Seq<char>| lookup(self.rules(), u)->Some_0)
    }
}

impl Policy {
    /// A policy that lists no user.
    pub fn new() -> (r: Policy)
        ensures
            r@ == Map::<Seq<char>, Seq<Seq<char>>>::empty(),
    {
        let r = Policy { entries: Vec::new() };
        assert(r@ =~= Map::<Seq<char>, Seq<Seq<char>>>::empty());
        r
    }

    /// Gives `user` the list `patterns`, in place of any list it had.
    pub fn allow(&mut self, user: String, patterns: Vec<String>)
        ensures
            final(self)@ == old(self)@.insert(user@, string_views(patterns@)),
    {
        let ghost rules0 = self.rules();
        let ghost e = (user@, string_views(patterns@));
        self.entries.push((user, patterns));
        assert(self.rules() =~= rules0.push(e));
        assert(self.rules().drop_last() =~= rules0);
        assert(self@ =~= old(self)@.insert(e.0, e.1));
    }

    /// The patterns listed for `user`, if any.
    pub fn patterns(&self, user: &String) -> (r: Option<&Vec<String>>)
        ensures
            r is Some <==> self@.contains_key(user@),
            r is Some ==> string_views(r->Some_0@) == self@[user@],
    {
        let mut j: usize = self.entries.len();
        assert(self.rules().subrange(0, j as int) == self.rules());
        while j > 0
            invariant
                j <= self.entries.len(),
                lookup(self.rules().subrange(0, j as int), user@) == lookup(self.rules(), user@),
            decreases j,
        {
            let ghost pre = self.rules().subrange(0, j as int);
            assert(pre.drop_last() == self.rules().subrange(0, j - 1));
            assert(pre.last() == self.rules()[j - 1]);
            if self.entries[j - 1].0 == *user {
                return Some(&self.entries[j - 1].1);
            }
            j = j - 1;
        }
        None
    }
}

} // verus!
