//! Character and string helpers shared by the transpiler and the file
//! utilities: ASCII case folding, string comparison, substring search, and
//! the join spec function that the emitters are specified against.

use vstd::prelude::*;
use vstd::string::StrSliceExecFns;

verus! {

/// ASCII lower-casing of one character; anything outside `A`..`Z` is kept.
pub open spec fn lower_char(c: char) -> char {
    if 65 <= c as u32 && c as u32 <= 90 {
        ((c as u32 + 32) as char)
    } else {
        c
    }
}

/// ASCII lower-casing of a character sequence.
pub open spec fn lower(s: Seq<char>) -> Seq<char> {
    s.map_values(|c: char| lower_char(c))
}

/// `p` is a prefix of `s`.
pub open spec fn starts_with(s: Seq<char>, p: Seq<char>) -> bool {
    p.len() <= s.len() && s.subrange(0, p.len() as int) == p
}

/// `p` occurs in `s` as a contiguous run.
pub open spec fn contains_sub(s: Seq<char>, p: Seq<char>) -> bool {
    exists|i: int|
        0 <= i && i + p.len() <= s.len() && #[trigger] s.subrange(i, i + p.len() as int) == p
}

/// The sequences in `ss` joined by the separator `sep`.
pub open spec fn join_with(ss: Seq<Seq<char>>, sep: Seq<char>) -> Seq<char>
    decreases ss.len(),
{
    if ss.len() == 0 {
        Seq::empty()
    } else if ss.len() == 1 {
        ss[0]
    } else {
        ss[0] + sep + join_with(ss.drop_first(), sep)
    }
}

/// Appending one more piece extends a join on the right.
pub proof fn lemma_join_with_push(ss: Seq<Seq<char>>, x: Seq<char>, sep: Seq<char>)
    ensures
        join_with(ss.push(x), sep) == if ss.len() == 0 {
            x
        } else {
            join_with(ss, sep) + sep + x
        },
    decreases ss.len(),
{
    if ss.len() == 0 {
        assert(ss.push(x).len() == 1);
        assert(join_with(ss.push(x), sep) == ss.push(x)[0]);
        assert(ss.push(x)[0] == x);
    } else if ss.len() == 1 {
        assert(join_with(ss.push(x), sep) == ss.push(x)[0] + sep + join_with(
            ss.push(x).drop_first(),
            sep,
        ));
        assert(ss.push(x).drop_first() =~= seq![x]);
        assert(join_with(seq![x], sep) == seq![x][0]);
        assert(seq![x][0] == x);
        assert(ss.push(x)[0] == ss[0]);
        assert(join_with(ss, sep) == ss[0]);
        assert(join_with(ss.push(x), sep) == join_with(ss, sep) + sep + x);
    } else {
        assert(join_with(ss.push(x), sep) == ss.push(x)[0] + sep + join_with(
            ss.push(x).drop_first(),
            sep,
        ));
        assert(ss.push(x).drop_first() =~= ss.drop_first().push(x));
        lemma_join_with_push(ss.drop_first(), x, sep);
        assert(ss.drop_first().len() >= 1);
        assert(join_with(ss.push(x), sep) == ss[0] + sep + (join_with(ss.drop_first(), sep) + sep
            + x));
        assert(ss[0] + sep + (join_with(ss.drop_first(), sep) + sep + x) =~= (ss[0] + sep
            + join_with(ss.drop_first(), sep)) + sep + x);
        assert(join_with(ss, sep) == ss[0] + sep + join_with(ss.drop_first(), sep));
    }
}

/// Relies on `String::push`: appends exactly the one given character.
#[verifier::external_body]
pub fn push_char(out: &mut String, c: char)
    ensures
        final(out)@ == old(out)@.push(c),
{
    out.push(c);
}

/// ASCII lower-casing of one character, executable form.
pub fn lower_ascii_char(c: char) -> (r: char)
    ensures
        r == lower_char(c),
{
    match c {
        'A' => 'a',
        'B' => 'b',
        'C' => 'c',
        'D' => 'd',
        'E' => 'e',
        'F' => 'f',
        'G' => 'g',
        'H' => 'h',
        'I' => 'i',
        'J' => 'j',
        'K' => 'k',
        'L' => 'l',
        'M' => 'm',
        'N' => 'n',
        'O' => 'o',
        'P' => 'p',
        'Q' => 'q',
        'R' => 'r',
        'S' => 's',
        'T' => 't',
        'U' => 'u',
        'V' => 'v',
        'W' => 'w',
        'X' => 'x',
        'Y' => 'y',
        'Z' => 'z',
        _ => c,
    }
}

/// Appends the ASCII-lower-cased form of `s` to `out`.
pub fn push_lower(out: &mut String, s: &str)
    ensures
        final(out)@ == old(out)@ + lower(s@),
{
    let ghost out0: Seq<char> = out@;
    let n: usize = s.unicode_len();
    let mut i: usize = 0;
    while i < n
        invariant
            n == s@.len(),
            i <= n,
            out@ == out0 + lower(s@).subrange(0, i as int),
        decreases n - i,
    {
        let c = s.get_char(i);
        let lc = lower_ascii_char(c);
        push_char(out, lc);
        proof {
            assert(lower(s@).subrange(0, i + 1 as int) =~= lower(s@).subrange(0, i as int).push(
                lower_char(s@[i as int]),
            ));
        }
        i = i + 1;
    }
    proof {
        assert(lower(s@).subrange(0, n as int) =~= lower(s@));
    }
}

/// The two strings hold the same characters.
pub fn str_eq(a: &str, b: &str) -> (r: bool)
    ensures
        r == (a@ == b@),
{
    let alen: usize = a.unicode_len();
    let blen: usize = b.unicode_len();
    if alen != blen {
        return false;
    }
    let mut i: usize = 0;
    while i < alen
        invariant
            alen == a@.len(),
            blen == b@.len(),
            alen == blen,
            i <= alen,
            forall|j: int| 0 <= j < i ==> a@[j] == b@[j],
        decreases alen - i,
    {
        if a.get_char(i) != b.get_char(i) {
            return false;
        }
        i = i + 1;
    }
    proof {
        assert(a@ =~= b@);
    }
    true
}

/// `p` matches `s` at offset `k`.
fn matches_at(s: &str, slen: usize, p: &str, plen: usize, k: usize) -> (r: bool)
    requires
        slen == s@.len(),
        plen == p@.len(),
        k + plen <= slen,
    ensures
        r == (s@.subrange(k as int, k as int + plen as int) == p@),
{
    let mut j: usize = 0;
    while j < plen
        invariant
            slen == s@.len(),
            plen == p@.len(),
            k + plen <= slen,
            j <= plen,
            forall|m: int| 0 <= m < j ==> s@[k + m] == p@[m],
        decreases plen - j,
    {
        if s.get_char(k + j) != p.get_char(j) {
            proof {
                assert(s@.subrange(k as int, k as int + plen as int)[j as int] == s@[k + j]);
            }
            return false;
        }
        j = j + 1;
    }
    proof {
        assert(s@.subrange(k as int, k as int + plen as int) =~= p@);
    }
    true
}

/// `p` is a prefix of `s`, executable form.
pub fn starts_with_str(s: &str, p: &str) -> (r: bool)
    ensures
        r == starts_with(s@, p@),
{
    let slen: usize = s.unicode_len();
    let plen: usize = p.unicode_len();
    if plen > slen {
        return false;
    }
    matches_at(s, slen, p, plen, 0)
}

/// `p` occurs in `s` as a contiguous run, executable form.
pub fn contains_str(s: &str, p: &str) -> (r: bool)
    ensures
        r == contains_sub(s@, p@),
{
    let slen: usize = s.unicode_len();
    let plen: usize = p.unicode_len();
    if plen > slen {
        return false;
    }
    if plen == 0 {
        proof {
            assert(s@.subrange(0, 0 + p@.len() as int) =~= p@);
            assert(contains_sub(s@, p@));
        }
        return true;
    }
    let bound: usize = slen - plen;
    let mut i: usize = 0;
    while i <= bound
        invariant
            slen == s@.len(),
            plen == p@.len(),
            0 < plen <= slen,
            bound == slen - plen,
            i <= bound + 1,
            forall|j: int|
                0 <= j < i ==> #[trigger] s@.subrange(j, j + plen as int) != p@,
        decreases bound + 1 - i,
    {
        if matches_at(s, slen, p, plen, i) {
            return true;
        }
        i = i + 1;
    }
    false
}

} // verus!
