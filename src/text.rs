//! Character-level helpers for file names: splitting a name into stem and
//! extension, decimal rendering of numbers, and conversions between
//! `String` and `Vec<char>`.

use vstd::prelude::*;
use vstd::std_specs::iter::IteratorSpec;

verus! {

/// What `str::to_lowercase` returns for a character sequence.
pub uninterp spec fn lower_of(s: Seq<char>) -> Seq<char>;

/// A character with the Unicode `White_Space` property.
pub open spec fn white_space(c: char) -> bool {
    let n = c as u32;
    (0x9 <= n <= 0xD) || n == 0x20 || n == 0x85 || n == 0xA0 || n == 0x1680 || (0x2000 <= n
        <= 0x200A) || n == 0x2028 || n == 0x2029 || n == 0x202F || n == 0x205F || n == 0x3000
}

/// `s` without its leading white space.
pub open spec fn trim_start(s: Seq<char>) -> Seq<char>
    decreases s.len(),
{
    if s.len() > 0 && white_space(s[0]) {
        trim_start(s.drop_first())
    } else {
        s
    }
}

/// `s` without its trailing white space.
pub open spec fn trim_end(s: Seq<char>) -> Seq<char>
    decreases s.len(),
{
    if s.len() > 0 && white_space(s.last()) {
        trim_end(s.drop_last())
    } else {
        s
    }
}

/// `s` without its leading and trailing white space.
pub open spec fn trimmed(s: Seq<char>) -> Seq<char> {
    trim_end(trim_start(s))
}

/// Relies on `str::to_lowercase`: the lower-case form of the text, which
/// depends on its characters alone.
#[verifier::external_body]
pub(crate) fn lowercase(s: &str) -> (r: String)
    ensures
        r@ == lower_of(s@),
{
    s.to_lowercase()
}

/// Relies on `str::trim`: the text without its leading and trailing
/// characters of the Unicode `White_Space` property.
#[verifier::external_body]
pub(crate) fn trim(s: &str) -> (r: String)
    ensures
        r@ == trimmed(s@),
{
    s.trim().to_string()
}

/// The characters of a string, in order.
pub(crate) fn chars_of(s: &str) -> (r: Vec<char>)
    ensures
        r@ == s@,
{
    broadcast use vstd::string::group_string_axioms;

    let mut it = s.chars();
    let mut r: Vec<char> = Vec::new();
    loop
        invariant
            r@ + it.remaining() == s@,
            it.decrease() is Some,
        decreases it.decrease()->0,
    {
        match it.next() {
            Some(c) => {
                r.push(c);
            },
            None => {
                assert(r@ =~= s@);
                return r;
            },
        }
    }
}

/// Relies on `String: FromIterator<char>`: the string of the characters in order.
#[verifier::external_body]
pub(crate) fn string_of(v: &Vec<char>) -> (r: String)
    ensures
        r@ == v@,
{
    v.iter().collect()
}

/// A name is hidden when it starts with a dot.
pub open spec fn hidden_name(n: Seq<char>) -> bool {
    n.len() > 0 && n[0] == '.'
}

/// Tells whether a base name is hidden (starts with `.`).
pub fn is_hidden(name: &str) -> (r: bool)
    ensures
        r == hidden_name(name@),
{
    name.unicode_len() > 0 && name.get_char(0) == '.'
}

/// Position of the last `.` of a name, or -1 when it holds none.
pub open spec fn last_dot(n: Seq<char>) -> int
    decreases n.len(),
{
    if n.len() == 0 {
        -1
    } else if n.last() == '.' {
        n.len() - 1
    } else {
        last_dot(n.drop_last())
    }
}

/// A name has an extension when its last dot is not its first character:
/// `.profile` has none, `archive.tar.gz` has `gz`, `notes.` has an empty one.
pub open spec fn has_ext(n: Seq<char>) -> bool {
    last_dot(n) > 0
}

pub open spec fn stem_of(n: Seq<char>) -> Seq<char> {
    if has_ext(n) {
        n.subrange(0, last_dot(n))
    } else {
        n
    }
}

pub open spec fn ext_of(n: Seq<char>) -> Seq<char> {
    if has_ext(n) {
        n.subrange(last_dot(n) + 1, n.len() as int)
    } else {
        Seq::empty()
    }
}

pub proof fn lemma_last_dot(n: Seq<char>)
    ensures
        -1 <= last_dot(n) < n.len(),
        last_dot(n) >= 0 ==> n[last_dot(n)] == '.',
        forall|j: int| last_dot(n) < j < n.len() ==> n[j] != '.',
    decreases n.len(),
{
    if n.len() > 0 && n.last() != '.' {
        lemma_last_dot(n.drop_last());
        assert forall|j: int| last_dot(n) < j < n.len() implies n[j] != '.' by {
            if j < n.len() - 1 {
                assert(n[j] == n.drop_last()[j]);
            }
        }
    }
}

/// The last dot of `prefix + tail` lies in `tail` when `tail` has one, and
/// is that of `prefix` when `tail` has none.
pub proof fn lemma_last_dot_append(prefix: Seq<char>, tail: Seq<char>)
    ensures
        last_dot(tail) >= 0 ==> last_dot(prefix + tail) == prefix.len() + last_dot(tail),
        last_dot(tail) < 0 ==> last_dot(prefix + tail) == last_dot(prefix),
    decreases tail.len(),
{
    if tail.len() == 0 {
        assert(prefix + tail =~= prefix);
    } else {
        assert((prefix + tail).drop_last() =~= prefix + tail.drop_last());
        if tail.last() != '.' {
            lemma_last_dot_append(prefix, tail.drop_last());
        }
    }
}

/// Index of the last `.` in `n`, if any.
pub(crate) fn find_last_dot(n: &Vec<char>) -> (r: Option<usize>)
    ensures
        match r {
            Some(k) => k as int == last_dot(n@),
            None => last_dot(n@) == -1,
        },
{
    let mut i: usize = n.len();
    assert(n@.subrange(0, i as int) =~= n@);
    while i > 0
        invariant
            i <= n.len(),
            last_dot(n@) == last_dot(n@.subrange(0, i as int)),
        decreases i,
    {
        if n[i - 1] == '.' {
            return Some(i - 1);
        }
        assert(n@.subrange(0, i as int).drop_last() =~= n@.subrange(0, i - 1));
        i = i - 1;
    }
    None
}

/// Splits a name into its stem and its extension, if it has one.
pub(crate) fn split_name(n: &Vec<char>) -> (r: (Vec<char>, Option<Vec<char>>))
    ensures
        r.0@ == stem_of(n@),
        match r.1 {
            Some(e) => has_ext(n@) && e@ == ext_of(n@),
            None => !has_ext(n@),
        },
{
    proof {
        lemma_last_dot(n@);
    }
    match find_last_dot(n) {
        Some(k) if k > 0 => {
            assert(k < n.len());
            let stem = slice_chars(n, 0, k);
            let ext = slice_chars(n, k + 1, n.len());
            (stem, Some(ext))
        },
        _ => (n.clone(), None),
    }
}

/// The characters of `n` from `lo` up to `hi`.
pub(crate) fn slice_chars(n: &Vec<char>, lo: usize, hi: usize) -> (r: Vec<char>)
    requires
        lo <= hi <= n.len(),
    ensures
        r@ == n@.subrange(lo as int, hi as int),
{
    let mut r: Vec<char> = Vec::new();
    let mut i: usize = lo;
    while i < hi
        invariant
            lo <= i <= hi <= n.len(),
            r@ == n@.subrange(lo as int, i as int),
        decreases hi - i,
    {
        r.push(n[i]);
        assert(r@ =~= n@.subrange(lo as int, i + 1));
        i = i + 1;
    }
    r
}

/// Appends the characters of `tail` to `v`.
pub(crate) fn push_all(v: &mut Vec<char>, tail: &Vec<char>)
    ensures
        final(v)@ == old(v)@ + tail@,
{
    let ghost start = v@;
    let mut i: usize = 0;
    while i < tail.len()
        invariant
            i <= tail.len(),
            v@ == start + tail@.subrange(0, i as int),
        decreases tail.len() - i,
    {
        v.push(tail[i]);
        assert(v@ =~= start + tail@.subrange(0, i + 1));
        i = i + 1;
    }
    assert(tail@.subrange(0, tail.len() as int) =~= tail@);
}

pub open spec fn digit_spec(d: nat) -> char {
    seq!['0', '1', '2', '3', '4', '5', '6', '7', '8', '9'][d as int]
}

/// Decimal digits of a number, most significant first, without padding.
pub open spec fn decimal(n: nat) -> Seq<char>
    decreases n,
{
    if n < 10 {
        seq![digit_spec(n)]
    } else {
        decimal(n / 10).push(digit_spec(n % 10))
    }
}

/// `s` preceded by as many zeros as make it `width` characters long.
pub open spec fn zero_padded(s: Seq<char>, width: nat) -> Seq<char> {
    if s.len() < width {
        Seq::new((width - s.len()) as nat, |_i: int| '0') + s
    } else {
        s
    }
}

fn digit(d: u64) -> (r: char)
    requires
        d < 10,
    ensures
        r == digit_spec(d as nat),
{
    match d {
        0 => '0',
        1 => '1',
        2 => '2',
        3 => '3',
        4 => '4',
        5 => '5',
        6 => '6',
        7 => '7',
        8 => '8',
        _ => '9',
    }
}

/// Decimal digits of `n`.
pub(crate) fn decimal_chars(n: u64) -> (r: Vec<char>)
    ensures
        r@ == decimal(n as nat),
    decreases n,
{
    if n < 10 {
        let mut v: Vec<char> = Vec::new();
        v.push(digit(n));
        assert(v@ =~= seq![digit_spec(n as nat)]);
        v
    } else {
        let mut v = decimal_chars(n / 10);
        v.push(digit(n % 10));
        v
    }
}

/// `s` padded on the left with zeros to `width` characters.
pub(crate) fn pad_zeros(s: &Vec<char>, width: usize) -> (r: Vec<char>)
    ensures
        r@ == zero_padded(s@, width as nat),
{
    let mut r: Vec<char> = Vec::new();
    if s.len() < width {
        let fill: usize = width - s.len();
        let mut i: usize = 0;
        while i < fill
            invariant
                i <= fill,
                r@ == Seq::new(i as nat, |_i: int| '0'),
            decreases fill - i,
        {
            r.push('0');
            assert(r@ =~= Seq::new((i + 1) as nat, |_i: int| '0'));
            i = i + 1;
        }
    }
    push_all(&mut r, s);
    assert(s.len() >= width ==> r@ =~= s@);
    r
}

} // verus!
