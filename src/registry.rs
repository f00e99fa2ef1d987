//! Lookups in the colon-separated user and group registries
//! (`name:password:id:...`, one record per line).
use vstd::prelude::*;
use crate::text::{chars_of, split, split_chars, trim_end, trim_end_chars, parse_u32, decimal_u32, views, lemma_split_nonempty};

verus! {

/// Why a registry lookup failed.
#[derive(Clone, Copy, Debug, PartialEq, Eq, Structural)]
pub enum RegistryError {
    /// The record on this line (counted from 1) has fewer than three fields.
    Malformed { line: usize },
    /// The id field of the record on this line (counted from 1) is not a number.
    BadNumber { line: usize },
    /// No record of the user registry has this uid.
    UnknownUid { uid: u32 },
    /// No record of the group registry has the group's name.
    UnknownGroup,
}

/// The lines of a registry as a line reader yields them, without their line
/// break and trailing white space. A final line break starts no extra line.
pub open spec fn registry_lines(text: Seq<char>) -> Seq<Seq<char>> {
    let pieces = split(text, '\n');
    let lines = if pieces.last().len() == 0 {
        pieces.drop_last()
    } else {
        pieces
    };
    lines.map_values(|l: Seq<char>| trim_end(l))
}

/// The fields of one registry line.
pub open spec fn fields(line: Seq<char>) -> Seq<Seq<char>> {
    split(line, ':')
}

/// The name on the first line, from line `k` on, whose id field is `uid`.
/// Each line passed over must hold a numeric id.
pub open spec fn user_from(lines: Seq<Seq<char>>, uid: u32, k: int) -> Result<
    Seq<char>,
    RegistryError,
>
    decreases lines.len() - k,
{
    if k < 0 || k >= lines.len() {
        Err(RegistryError::UnknownUid { uid })
    } else {
        let f = fields(lines[k]);
        if f.len() < 3 {
            Err(RegistryError::Malformed { line: (k + 1) as usize })
        } else {
            match decimal_u32(f[2]) {
                None => Err(RegistryError::BadNumber { line: (k + 1) as usize }),
                Some(n) => if n == uid {
                    Ok(f[0])
                } else {
                    user_from(lines, uid, k + 1)
                },
            }
        }
    }
}

/// The name that the user registry `text` gives to `uid`.
pub open spec fn user_entry(text: Seq<char>, uid: u32) -> Result<Seq<char>, RegistryError> {
    user_from(registry_lines(text), uid, 0)
}

/// The id on the first line, from line `k` on, whose name field is `name`.
pub open spec fn group_from(lines: Seq<Seq<char>>, name: Seq<char>, k: int) -> Result<
    u32,
    RegistryError,
>
    decreases lines.len() - k,
{
    if k < 0 || k >= lines.len() {
        Err(RegistryError::UnknownGroup)
    } else {
        let f = fields(lines[k]);
        if f[0] != name {
            group_from(lines, name, k + 1)
        } else if f.len() < 3 {
            Err(RegistryError::Malformed { line: (k + 1) as usize })
        } else {
            match decimal_u32(f[2]) {
                None => Err(RegistryError::BadNumber { line: (k + 1) as usize }),
                Some(n) => Ok(n),
            }
        }
    }
}

/// The id that the group registry `text` gives to the group `name`.
pub open spec fn group_entry(text: Seq<char>, name: Seq<char>) -> Result<u32, RegistryError> {
    group_from(registry_lines(text), name, 0)
}

/// Relies on std's `FromIterator<char>` for `String`: the string holds the
/// characters in order.
#[verifier::external_body]
fn string_of(v: &Vec<char>) -> (r: String)
    ensures
        r@ == v@,
{
    v.iter().collect()
}

/// The lines of `text`, as `registry_lines` gives them.
pub fn lines_of(text: &str) -> (r: Vec<Vec<char>>)
    ensures
        views(r@) == registry_lines(text@),
{
    let all = chars_of(text);
    let mut pieces = split_chars(&all, '\n');
    proof {
        lemma_split_nonempty(text@, '\n');
    }
    let ghost split_pieces = views(pieces@);
    let n = pieces.len();
    if pieces[n - 1].len() == 0 {
        pieces.pop();
        assert(views(pieces@) =~= split_pieces.drop_last());
    }
    let ghost kept = views(pieces@);
    let mut r: Vec<Vec<char>> = Vec::new();
    let mut i: usize = 0;
    while i < pieces.len()
        invariant
            i <= pieces.len(),
            kept == views(pieces@),
            views(r@) =~= kept.subrange(0, i as int).map_values(|l: Seq<char>| trim_end(l)),
        decreases pieces.len() - i,
    {
        let t = trim_end_chars(&pieces[i]);
        let ghost before = views(r@);
        assert(kept[i as int] == pieces@[i as int]@);
        r.push(t);
        assert(views(r@) =~= before.push(trim_end(kept[i as int])));
        i = i + 1;
        assert(views(r@) =~= kept.subrange(0, i as int).map_values(|l: Seq<char>| trim_end(l)));
    }
    assert(kept.subrange(0, i as int) == kept);
    r
}

/// Finds the name that the user registry `text` gives to `uid`: the name of
/// the first record whose id field is `uid`.
pub fn user_by_uid(text: &str, uid: u32) -> (r: Result<String, RegistryError>)
    ensures
        r is Ok <==> user_entry(text@, uid) is Ok,
        r is Ok ==> user_entry(text@, uid) == Ok::<Seq<char>, RegistryError>(r->Ok_0@),
        r is Err ==> user_entry(text@, uid) == Err::<Seq<char>, RegistryError>(r->Err_0),
{
    let lines = lines_of(text);
    let ghost ls = views(lines@);
    let mut k: usize = 0;
    while k < lines.len()
        invariant
            k <= lines.len(),
            ls == views(lines@),
            ls == registry_lines(text@),
            user_from(ls, uid, k as int) == user_entry(text@, uid),
        decreases lines.len() - k,
    {
        let f = split_chars(&lines[k], ':');
        assert(views(f@) == fields(ls[k as int]));
        if f.len() < 3 {
            return Err(RegistryError::Malformed { line: k + 1 });
        }
        match parse_u32(&f[2]) {
            None => {
                return Err(RegistryError::BadNumber { line: k + 1 });
            },
            Some(n) => {
                if n == uid {
                    return Ok(string_of(&f[0]));
                }
            },
        }
        k = k + 1;
    }
    Err(RegistryError::UnknownUid { uid })
}

fn same_chars(a: &Vec<char>, b: &Vec<char>) -> (r: bool)
    ensures
        r == (a@ == b@),
{
    if a.len() != b.len() {
        return false;
    }
    let mut i: usize = 0;
    while i < a.len()
        invariant
            i <= a.len() == b.len(),
            a@.subrange(0, i as int) == b@.subrange(0, i as int),
        decreases a.len() - i,
    {
        if a[i] != b[i] {
            return false;
        }
        i = i + 1;
        assert(a@.subrange(0, i as int) =~= b@.subrange(0, i as int));
    }
    assert(a@.subrange(0, i as int) == a@);
    assert(b@.subrange(0, i as int) == b@);
    true
}

/// Finds the id that the group registry `text` gives to the group `name`: the
/// id of the first record whose name field is `name`.
pub fn group_id(text: &str, name: &str) -> (r: Result<u32, RegistryError>)
    ensures
        r is Ok <==> group_entry(text@, name@) is Ok,
        r is Ok ==> group_entry(text@, name@) == Ok::<u32, RegistryError>(r->Ok_0),
        r is Err ==> group_entry(text@, name@) == Err::<u32, RegistryError>(r->Err_0),
{
    let wanted = chars_of(name);
    let lines = lines_of(text);
    let ghost ls = views(lines@);
    let mut k: usize = 0;
    while k < lines.len()
        invariant
            k <= lines.len(),
            ls == views(lines@),
            ls == registry_lines(text@),
            wanted@ == name@,
            group_from(ls, name@, k as int) == group_entry(text@, name@),
        decreases lines.len() - k,
    {
        let f = split_chars(&lines[k], ':');
        assert(views(f@) == fields(ls[k as int]));
        proof {
            lemma_split_nonempty(ls[k as int], ':');
        }
        if same_chars(&f[0], &wanted) {
            if f.len() < 3 {
                return Err(RegistryError::Malformed { line: k + 1 });
            }
            return match parse_u32(&f[2]) {
                None => Err(RegistryError::BadNumber { line: k + 1 }),
                Some(n) => Ok(n),
            };
        }
        k = k + 1;
    }
    Err(RegistryError::UnknownGroup)
}

} // verus!
