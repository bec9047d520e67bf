//! Conversions between strings and character vectors.
//!
//! The logic of this crate reads and builds text as vectors of `char`,
//! whose view is the same sequence of characters as that of the string.
use vstd::prelude::*;

verus! {

/// The characters of `s`, in order.
pub fn chars_of(s: &str) -> (v: Vec<char>)
    ensures
        v@ == s@,
{
    broadcast use vstd::string::axiom_spec_iter;
    let mut v: Vec<char> = Vec::new();
    for c in it: s.chars()
        invariant
            it.seq() == s@,
            v@ == it.seq().take(it.index() as int),
    {
        v.push(c);
    }
    v
}

/// Collects characters into a `String` (std's `FromIterator<char>`): the
/// string holds exactly these characters in order.
#[verifier::external_body]
pub fn string_of(v: &[char]) -> (s: String)
    ensures
        s@ == v@,
{
    v.iter().collect()
}

/// Copies a string slice into an owned string with the same characters.
pub fn owned(s: &str) -> (r: String)
    ensures
        r@ == s@,
{
    s.to_owned()
}

/// Whether two strings hold the same characters.
pub fn str_eq(a: &str, b: &str) -> (r: bool)
    ensures
        r == (a@ == b@),
{
    let x = chars_of(a);
    let y = chars_of(b);
    if x.len() != y.len() {
        return false;
    }
    let mut i: usize = 0;
    while i < x.len()
        invariant
            i <= x.len(),
            x.len() == y.len(),
            x@ == a@,
            y@ == b@,
            forall|j: int| 0 <= j < i ==> x@[j] == y@[j],
        decreases x.len() - i,
    {
        if x[i] != y[i] {
            return false;
        }
        i += 1;
    }
    assert(x@ =~= y@);
    true
}

/// The concatenation of two character sequences as a string.
pub fn concat(a: &str, b: &str) -> (r: String)
    ensures
        r@ == a@ + b@,
{
    let mut v = chars_of(a);
    let w = chars_of(b);
    let mut i: usize = 0;
    let ghost start = v@;
    while i < w.len()
        invariant
            i <= w.len(),
            w@ == b@,
            start == a@,
            v@ == start + w@.take(i as int),
        decreases w.len() - i,
    {
        v.push(w[i]);
        i += 1;
        assert(w@.take(i as int) == w@.take((i - 1) as int).push(w@[i - 1]));
    }
    assert(w@.take(w.len() as int) == w@);
    string_of(&v)
}


/// The parts written one after the other with `sep` between each two.
pub open spec fn joined(parts: Seq<Seq<char>>, sep: Seq<char>) -> Seq<char>
    decreases parts.len(),
{
    if parts.len() == 0 {
        Seq::empty()
    } else if parts.len() == 1 {
        parts[0]
    } else {
        joined(parts.drop_last(), sep) + sep + parts.last()
    }
}

/// The strings of `parts`, with `sep` between each two.
pub fn join(parts: &Vec<String>, sep: &str) -> (r: String)
    ensures
        r@ == joined(parts@.map_values(|s: String| s@), sep@),
{
    let ghost ps = parts@.map_values(|s: String| s@);
    let mut r = String::new();
    let mut i: usize = 0;
    while i < parts.len()
        invariant
            i <= parts.len(),
            ps == parts@.map_values(|s: String| s@),
            r@ == joined(ps.take(i as int), sep@),
        decreases parts.len() - i,
    {
        proof {
            assert(ps.take(i + 1).drop_last() =~= ps.take(i as int));
            assert(ps.take(i + 1).last() == parts@[i as int]@);
        }
        if i == 0 {
            r = concat(r.as_str(), parts[i].as_str());
            assert(r@ =~= parts@[0]@);
        } else {
            let with_sep = concat(r.as_str(), sep);
            r = concat(with_sep.as_str(), parts[i].as_str());
        }
        i += 1;
    }
    proof {
        assert(ps.take(parts.len() as int) =~= ps);
    }
    r
}


/// The lowercase form of a string, as `str::to_lowercase` computes it from
/// the Unicode case tables.
pub uninterp spec fn lowercase(s: Seq<char>) -> Seq<char>;

/// Calls `str::to_lowercase`; the result is named [`lowercase`].
#[verifier::external_body]
pub fn to_lowercase(s: &str) -> (r: String)
    ensures
        r@ == lowercase(s@),
{
    s.to_lowercase()
}

/// `n` occurs in `h` as a contiguous run of characters.
pub open spec fn has_substring(h: Seq<char>, n: Seq<char>) -> bool {
    exists|i: int| 0 <= i && i + n.len() <= h.len() && #[trigger] h.subrange(i, i + n.len()) == n
}

/// Whether `n` occurs in `h` as a contiguous run of characters.
pub fn contains_str(h: &str, n: &str) -> (r: bool)
    ensures
        r == has_substring(h@, n@),
{
    let hv = chars_of(h);
    let nv = chars_of(n);
    if nv.len() > hv.len() {
        proof {
            assert forall|i: int| 0 <= i && i + n@.len() <= h@.len() implies #[trigger] h@.subrange(i, i + n@.len()) != n@ by {}
        }
        return false;
    }
    let last = hv.len() - nv.len();
    let mut i: usize = 0;
    while i <= last
        invariant
            hv@ == h@,
            nv@ == n@,
            last == hv.len() - nv.len(),
            nv.len() <= hv.len(),
            i <= last + 1,
            forall|k: int| 0 <= k < i ==> #[trigger] h@.subrange(k, k + n@.len()) != n@,
        decreases last + 1 - i,
    {
        let mut j: usize = 0;
        let mut same = true;
        while j < nv.len()
            invariant
                hv@ == h@,
                nv@ == n@,
                i <= last,
                last == hv.len() - nv.len(),
                j <= nv.len(),
                same == (forall|m: int| 0 <= m < j ==> hv@[i + m] == nv@[m]),
            decreases nv.len() - j,
        {
            if hv[i + j] != nv[j] {
                same = false;
            }
            j += 1;
        }
        if same {
            assert(h@.subrange(i as int, i + n@.len()) =~= n@);
            return true;
        }
        proof {
            let m = choose|m: int| 0 <= m < nv.len() && hv@[i + m] != nv@[m];
            assert(h@.subrange(i as int, i + n@.len())[m] != n@[m]);
        }
        i += 1;
    }
    false
}

/// `s` begins with the characters of `p`.
pub open spec fn begins_with(s: Seq<char>, p: Seq<char>) -> bool {
    p.len() <= s.len() && s.subrange(0, p.len() as int) == p
}

/// Whether `s` begins with `p`.
pub fn starts_with(s: &str, p: &str) -> (r: bool)
    ensures
        r == begins_with(s@, p@),
{
    let sv = chars_of(s);
    let pv = chars_of(p);
    if pv.len() > sv.len() {
        return false;
    }
    let mut i: usize = 0;
    while i < pv.len()
        invariant
            sv@ == s@,
            pv@ == p@,
            pv.len() <= sv.len(),
            i <= pv.len(),
            forall|j: int| 0 <= j < i ==> sv@[j] == pv@[j],
        decreases pv.len() - i,
    {
        if sv[i] != pv[i] {
            assert(s@.subrange(0, p@.len() as int)[i as int] != p@[i as int]);
            return false;
        }
        i += 1;
    }
    assert(s@.subrange(0, p@.len() as int) =~= p@);
    true
}

} // verus!
