//! Collision avoidance: when a destination name is taken, the first free
//! name among `stem (1).ext`, `stem (2).ext`, ... is used instead.

use vstd::prelude::*;
use crate::classify::views;
use crate::text::{
    chars_of, decimal, decimal_chars, ext_of, has_ext, push_all, split_name, stem_of, string_of,
};

verus! {

/// How many numbered variants are tried before giving up.
pub const MAX_SUFFIX: u64 = 10000;

/// The `i`-th numbered variant of a name: `a.txt` gives `a (i).txt`, `notes`
/// gives `notes (i)`.
pub open spec fn variant(name: Seq<char>, i: nat) -> Seq<char> {
    stem_of(name) + seq![' ', '('] + decimal(i) + seq![')'] + if has_ext(name) {
        seq!['.'] + ext_of(name)
    } else {
        Seq::empty()
    }
}

/// Whether `x` is among the names in `taken`.
pub open spec fn listed(taken: Seq<Seq<char>>, x: Seq<char>) -> bool {
    exists|j: int| 0 <= j < taken.len() && taken[j] == x
}

/// The first free variant of `name` with a number from `i` up to `MAX_SUFFIX`.
pub open spec fn first_free(name: Seq<char>, taken: Seq<Seq<char>>, i: nat) -> Option<Seq<char>>
    decreases MAX_SUFFIX + 1 - i,
{
    if i > MAX_SUFFIX || i == 0 {
        None
    } else if !listed(taken, variant(name, i)) {
        Some(variant(name, i))
    } else {
        first_free(name, taken, i + 1)
    }
}

/// The name a file called `name` gets in a folder holding `taken`: the name
/// itself when free, else its first free numbered variant; `None` when all
/// of them are taken.
pub open spec fn resolved(name: Seq<char>, taken: Seq<Seq<char>>) -> Option<Seq<char>> {
    if !listed(taken, name) {
        Some(name)
    } else {
        first_free(name, taken, 1)
    }
}

/// Failure to find a free destination name.
#[derive(Clone, Copy, Debug, PartialEq, Eq, Structural)]
pub enum ResolveError {
    /// The name and all its numbered variants up to `MAX_SUFFIX` are taken.
    Exhausted,
}

/// Builds the `i`-th numbered variant of a name.
pub fn variant_name(name: &str, i: u64) -> (r: String)
    ensures
        r@ == variant(name@, i as nat),
{
    let chars = chars_of(name);
    let (stem, ext) = split_name(&chars);
    let mut v = stem;
    v.push(' ');
    v.push('(');
    push_all(&mut v, &decimal_chars(i));
    v.push(')');
    match ext {
        Some(e) => {
            v.push('.');
            push_all(&mut v, &e);
        },
        None => {},
    }
    assert(v@ =~= variant(name@, i as nat));
    string_of(&v)
}

/// Tells whether `x` is one of `taken`.
pub fn is_listed(taken: &Vec<String>, x: &String) -> (r: bool)
    ensures
        r == listed(views(taken@), x@),
{
    let ghost tv = views(taken@);
    let mut i: usize = 0;
    while i < taken.len()
        invariant
            i <= taken.len(),
            tv == views(taken@),
            forall|j: int| 0 <= j < i ==> tv[j] != x@,
        decreases taken.len() - i,
    {
        if taken[i] == *x {
            assert(tv[i as int] == x@);
            return true;
        }
        i = i + 1;
    }
    false
}

/// Picks the destination name of a file called `name` in a folder whose
/// entries are `taken`: the name itself when it is free, else the first of
/// its numbered variants that is free. Fails when the name and all variants
/// up to `MAX_SUFFIX` are taken.
pub fn resolve_name(name: &str, taken: &Vec<String>) -> (r: Result<String, ResolveError>)
    ensures
        match r {
            Ok(n) => resolved(name@, views(taken@)) == Some(n@),
            Err(_) => resolved(name@, views(taken@)) is None,
        },
{
    let ghost tv = views(taken@);
    let first = String::from_str(name);
    if !is_listed(taken, &first) {
        return Ok(first);
    }
    let mut i: u64 = 1;
    while i <= MAX_SUFFIX
        invariant
            1 <= i <= MAX_SUFFIX + 1,
            tv == views(taken@),
            listed(tv, name@),
            resolved(name@, tv) == first_free(name@, tv, i as nat),
        decreases MAX_SUFFIX + 1 - i,
    {
        let candidate = variant_name(name, i);
        if !is_listed(taken, &candidate) {
            return Ok(candidate);
        }
        i = i + 1;
    }
    Err(ResolveError::Exhausted)
}

/// A name that is taken is never returned: what comes back is the first of
/// its numbered variants that is free, and every earlier variant is taken.
pub proof fn lemma_resolved_is_first_free(name: Seq<char>, taken: Seq<Seq<char>>)
    requires
        listed(taken, name),
        resolved(name, taken) is Some,
    ensures
        resolved(name, taken)->Some_0 != name,
        exists|i: nat|
            1 <= i <= MAX_SUFFIX && resolved(name, taken) == Some(variant(name, i)) && !listed(
                taken,
                variant(name, i),
            ) && forall|j: nat| 1 <= j < i ==> listed(taken, #[trigger] variant(name, j)),
{
    lemma_first_free(name, taken, 1);
}

proof fn lemma_first_free(name: Seq<char>, taken: Seq<Seq<char>>, k: nat)
    requires
        1 <= k,
        first_free(name, taken, k) is Some,
        listed(taken, name),
    ensures
        first_free(name, taken, k)->Some_0 != name,
        exists|i: nat|
            k <= i <= MAX_SUFFIX && first_free(name, taken, k) == Some(variant(name, i))
                && !listed(taken, variant(name, i)) && forall|j: nat|
                k <= j < i ==> listed(taken, #[trigger] variant(name, j)),
    decreases MAX_SUFFIX + 1 - k,
{
    if !listed(taken, variant(name, k)) {
        assert(first_free(name, taken, k) == Some(variant(name, k)));
    } else {
        lemma_first_free(name, taken, k + 1);
        let i = choose|i: nat|
            k + 1 <= i <= MAX_SUFFIX && first_free(name, taken, k + 1) == Some(variant(name, i))
                && !listed(taken, variant(name, i)) && forall|j: nat|
                k + 1 <= j < i ==> listed(taken, #[trigger] variant(name, j));
        assert forall|j: nat| k <= j < i implies listed(taken, #[trigger] variant(name, j)) by {}
    }
}

} // verus!
