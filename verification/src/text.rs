//! Character-level helpers for the line-oriented protocol: trimming the
//! whitespace that line reading leaves at the edges, and ASCII-lowercasing
//! command names.

use vstd::prelude::*;

verus! {

/// Relies on String::push: appends exactly the one given character.
#[verifier::external_body]
pub(crate) fn push_char(s: &mut String, c: char)
    ensures
        final(s)@ == old(s)@.push(c),
{
    s.push(c);
}

/// The whitespace that can surround an argument on its line: blanks, tabs and
/// the line terminator pair.
pub open spec fn is_line_ws(c: char) -> bool {
    c == ' ' || c == '\t' || c == '\r' || c == '\n'
}

pub open spec fn trim_front(s: Seq<char>) -> Seq<char>
    decreases s.len(),
{
    if s.len() > 0 && is_line_ws(s[0]) {
        trim_front(s.drop_first())
    } else {
        s
    }
}

pub open spec fn trim_back(s: Seq<char>) -> Seq<char>
    decreases s.len(),
{
    if s.len() > 0 && is_line_ws(s.last()) {
        trim_back(s.drop_last())
    } else {
        s
    }
}

/// `s` without leading and trailing line whitespace.
pub open spec fn spec_trim(s: Seq<char>) -> Seq<char> {
    trim_back(trim_front(s))
}

/// Trimming strips a trailing terminator pair from a string that is clean at
/// its edges, as when an argument line is read back.
pub proof fn lemma_trim_line_of(p: Seq<char>)
    requires
        p.len() > 0 ==> !is_line_ws(p[0]) && !is_line_ws(p.last()),
    ensures
        spec_trim(p + seq!['\r', '\n']) == p,
{
    let s = p + seq!['\r', '\n'];
    if p.len() == 0 {
        assert(s =~= seq!['\r', '\n']);
        assert(s.drop_first() =~= seq!['\n']);
        assert(trim_front(s) == trim_front(seq!['\n']));
        assert(seq!['\n'].drop_first() =~= Seq::<char>::empty());
        assert(trim_front(seq!['\n']) == trim_front(Seq::<char>::empty()));
        assert(trim_front(Seq::<char>::empty()) == Seq::<char>::empty());
        assert(trim_back(Seq::<char>::empty()) == Seq::<char>::empty());
        assert(spec_trim(s) =~= p);
    } else {
        assert(s[0] == p[0]);
        assert(trim_front(s) == s);
        let q = p + seq!['\r'];
        assert(s.last() == '\n');
        assert(s.drop_last() =~= q);
        assert(trim_back(s) == trim_back(q));
        assert(q.last() == '\r');
        assert(q.drop_last() =~= p);
        assert(trim_back(q) == trim_back(p));
        assert(p.last() == s[p.len() - 1]);
        assert(trim_back(p) == p);
    }
}

fn is_ws_char(c: char) -> (r: bool)
    ensures
        r == is_line_ws(c),
{
    c == ' ' || c == '\t' || c == '\r' || c == '\n'
}

proof fn lemma_trim_front_step(s: Seq<char>, lo: int)
    requires
        0 <= lo < s.len(),
        is_line_ws(s[lo]),
        trim_front(s) == trim_front(s.subrange(lo, s.len() as int)),
    ensures
        trim_front(s) == trim_front(s.subrange(lo + 1, s.len() as int)),
{
    let t = s.subrange(lo, s.len() as int);
    assert(t[0] == s[lo]);
    assert(t.drop_first() =~= s.subrange(lo + 1, s.len() as int));
}

proof fn lemma_trim_back_step(s: Seq<char>, lo: int, hi: int)
    requires
        0 <= lo < hi <= s.len(),
        is_line_ws(s[hi - 1]),
        trim_back(s.subrange(lo, s.len() as int)) == trim_back(s.subrange(lo, hi)),
    ensures
        trim_back(s.subrange(lo, s.len() as int)) == trim_back(s.subrange(lo, hi - 1)),
{
    let t = s.subrange(lo, hi);
    assert(t.last() == s[hi - 1]);
    assert(t.drop_last() =~= s.subrange(lo, hi - 1));
}

/// Strips leading and trailing line whitespace, as every protocol line is
/// cleaned after reading.
pub fn trim_line(s: &str) -> (r: String)
    ensures
        r@ == spec_trim(s@),
{
    let n = s.unicode_len();
    let mut lo: usize = 0;
    proof {
        assert(s@.subrange(0, n as int) =~= s@);
    }
    while lo < n && is_ws_char(s.get_char(lo))
        invariant
            0 <= lo <= n == s@.len(),
            trim_front(s@) == trim_front(s@.subrange(lo as int, n as int)),
        decreases n - lo,
    {
        proof {
            lemma_trim_front_step(s@, lo as int);
        }
        lo = lo + 1;
    }
    proof {
        let rest = s@.subrange(lo as int, n as int);
        assert(trim_front(rest) == rest);
    }
    let mut hi: usize = n;
    while hi > lo && is_ws_char(s.get_char(hi - 1))
        invariant
            0 <= lo <= hi <= n == s@.len(),
            trim_front(s@) == s@.subrange(lo as int, n as int),
            trim_back(s@.subrange(lo as int, n as int)) == trim_back(
                s@.subrange(lo as int, hi as int),
            ),
        decreases hi,
    {
        proof {
            lemma_trim_back_step(s@, lo as int, hi as int);
        }
        hi = hi - 1;
    }
    proof {
        let t = s@.subrange(lo as int, hi as int);
        assert(trim_back(t) == t);
    }
    String::from_str(s.substring_char(lo, hi))
}

/// The ASCII lowering of one character; anything outside `A`..`Z` is kept.
pub open spec fn lower_char(c: char) -> char {
    if 'A' <= c && c <= 'Z' {
        ((c as u32) + 32) as char
    } else {
        c
    }
}

pub open spec fn spec_lower(s: Seq<char>) -> Seq<char> {
    Seq::new(s.len(), |i: int| lower_char(s[i]))
}

/// Lowers the ASCII letters of `s`, used for case-insensitive command names.
pub fn to_lowercase_ascii(s: &str) -> (r: String)
    ensures
        r@ == spec_lower(s@),
{
    let n = s.unicode_len();
    let mut r = String::new();
    let mut i: usize = 0;
    while i < n
        invariant
            0 <= i <= n == s@.len(),
            r@ =~= spec_lower(s@).take(i as int),
        decreases n - i,
    {
        let c = s.get_char(i);
        let v = c as u32;
        let lowered: char = if v >= 65 && v <= 90 {
            proof {
                assert(v + 32 <= 122);
            }
            ((v + 32) as u8) as char
        } else {
            c
        };
        assert(lowered == lower_char(s@[i as int]));
        push_char(&mut r, lowered);
        assert(r@ =~= spec_lower(s@).take(i + 1));
        i = i + 1;
    }
    proof {
        assert(spec_lower(s@).take(n as int) =~= spec_lower(s@));
    }
    r
}

} // verus!
