//! Fixed-width text cells: trim, truncate and pad a single line of text to
//! an exact visible-character width.

use vstd::prelude::*;

verus! {

/// A character that trimming removes from either end of a cell's text.
pub open spec fn is_space_char(c: char) -> bool {
    c == ' ' || c == '\t' || c == '\n' || c == '\r'
}

/// The input with leading whitespace removed.
pub open spec fn trim_front(s: Seq<char>) -> Seq<char>
    decreases s.len(),
{
    if s.len() > 0 && is_space_char(s[0]) {
        trim_front(s.subrange(1, s.len() as int))
    } else {
        s
    }
}

/// The input with trailing whitespace removed.
pub open spec fn trim_back(s: Seq<char>) -> Seq<char>
    decreases s.len(),
{
    if s.len() > 0 && is_space_char(s[s.len() - 1]) {
        trim_back(s.subrange(0, s.len() - 1))
    } else {
        s
    }
}

/// The input with whitespace removed from both ends.
pub open spec fn spec_trim(s: Seq<char>) -> Seq<char> {
    trim_back(trim_front(s))
}

/// The text a right-padded cell shows: the input is trimmed, truncated to
/// the first `w` characters if too long, and otherwise filled on the right
/// with copies of the pad character up to width `w`.
pub open spec fn spec_right_pad(s: Seq<char>, w: int, p: char) -> Seq<char> {
    let t = spec_trim(s);
    if t.len() > w {
        t.subrange(0, w)
    } else {
        t + Seq::new((w - t.len()) as nat, |k: int| p)
    }
}

/// The text a left-padded cell shows: the input is trimmed, truncated to
/// the last `w` characters if too long, and otherwise filled on the left
/// with copies of the pad character up to width `w`.
pub open spec fn spec_left_pad(s: Seq<char>, w: int, p: char) -> Seq<char> {
    let t = spec_trim(s);
    if t.len() > w {
        t.subrange(t.len() - w, t.len() as int)
    } else {
        Seq::new((w - t.len()) as nat, |k: int| p) + t
    }
}

fn is_space(c: char) -> (r: bool)
    ensures
        r == is_space_char(c),
{
    c == ' ' || c == '\t' || c == '\n' || c == '\r'
}

/// The slice of `s` left when whitespace is removed from both ends.
pub fn trimmed(s: &str) -> (r: &str)
    ensures
        r@ == spec_trim(s@),
{
    let n = s.unicode_len();
    proof {
        assert(s@.subrange(0, n as int) =~= s@);
    }
    let mut i: usize = 0;
    while i < n && is_space(s.get_char(i))
        invariant
            i <= n,
            n == s@.len(),
            trim_front(s@) == trim_front(s@.subrange(i as int, n as int)),
        decreases n - i,
    {
        proof {
            let sub = s@.subrange(i as int, n as int);
            assert(sub.subrange(1, sub.len() as int) =~= s@.subrange(i + 1, n as int));
        }
        i = i + 1;
    }
    proof {
        if i == n {
            assert(s@.subrange(i as int, n as int) =~= Seq::<char>::empty());
        }
        assert(trim_front(s@) == s@.subrange(i as int, n as int));
    }
    let mut j: usize = n;
    while j > i && is_space(s.get_char(j - 1))
        invariant
            i <= j <= n,
            n == s@.len(),
            trim_back(s@.subrange(i as int, n as int)) == trim_back(
                s@.subrange(i as int, j as int),
            ),
        decreases j,
    {
        proof {
            let sub = s@.subrange(i as int, j as int);
            assert(sub.subrange(0, sub.len() - 1) =~= s@.subrange(i as int, j - 1));
        }
        j = j - 1;
    }
    proof {
        if i == j {
            assert(s@.subrange(i as int, j as int) =~= Seq::<char>::empty());
        }
        assert(spec_trim(s@) == s@.subrange(i as int, j as int));
    }
    s.substring_char(i, j)
}

/// Format a cell to exactly `len` visible characters: trim, keep the first
/// `len` characters if too long, else append copies of `pad` on the right.
pub fn str_right_pad(s: &str, len: usize, pad: &str) -> (r: String)
    requires
        pad@.len() == 1,
    ensures
        r@ == spec_right_pad(s@, len as int, pad@[0]),
{
    let t = trimmed(s);
    let tn = t.unicode_len();
    if tn > len {
        let cut = t.substring_char(0, len);
        String::from_str(cut)
    } else {
        let mut r = String::from_str(t);
        proof {
            assert(r@ =~= t@ + Seq::new(0nat, |q: int| pad@[0]));
        }
        let mut k: usize = tn;
        while k < len
            invariant
                tn <= k <= len,
                tn == t@.len(),
                pad@.len() == 1,
                t@ == spec_trim(s@),
                r@ == t@ + Seq::new((k - tn) as nat, |q: int| pad@[0]),
            decreases len - k,
        {
            r.append(pad);
            proof {
                assert(r@ =~= t@ + Seq::new((k + 1 - tn) as nat, |q: int| pad@[0]));
            }
            k = k + 1;
        }
        r
    }
}

/// Format a cell to exactly `len` visible characters: trim, keep the last
/// `len` characters if too long, else prepend copies of `pad` on the left.
pub fn str_left_pad(s: &str, len: usize, pad: &str) -> (r: String)
    requires
        pad@.len() == 1,
    ensures
        r@ == spec_left_pad(s@, len as int, pad@[0]),
{
    let t = trimmed(s);
    let tn = t.unicode_len();
    if tn > len {
        let cut = t.substring_char(tn - len, tn);
        String::from_str(cut)
    } else {
        let mut r = String::new();
        proof {
            assert(r@ =~= Seq::new(0nat, |q: int| pad@[0]));
        }
        let mut k: usize = 0;
        while k < len - tn
            invariant
                k <= len - tn,
                tn <= len,
                tn == t@.len(),
                pad@.len() == 1,
                t@ == spec_trim(s@),
                r@ == Seq::new(k as nat, |q: int| pad@[0]),
            decreases len - tn - k,
        {
            r.append(pad);
            proof {
                assert(r@ =~= Seq::new((k + 1) as nat, |q: int| pad@[0]));
            }
            k = k + 1;
        }
        r.append(t);
        r
    }
}

/// Law: a padded cell always has exactly the requested width, whatever the
/// input text.
pub proof fn lemma_pad_width(s: Seq<char>, w: int, p: char)
    requires
        w >= 0,
    ensures
        spec_right_pad(s, w, p).len() == w,
        spec_left_pad(s, w, p).len() == w,
{
}

/// Law: when the trimmed input is longer than the width, the cell is a pure
/// truncation — the first `w` characters for a right-padded cell, the last
/// `w` for a left-padded cell — and no pad characters appear.
pub proof fn lemma_pad_truncates(s: Seq<char>, w: int, p: char)
    requires
        w >= 0,
        spec_trim(s).len() > w,
    ensures
        spec_right_pad(s, w, p) == spec_trim(s).subrange(0, w),
        spec_left_pad(s, w, p) == spec_trim(s).subrange(
            spec_trim(s).len() - w,
            spec_trim(s).len() as int,
        ),
{
}

/// Law: when the trimmed input fits, a right-padded cell is the trimmed
/// input followed by `w - len` pad characters, and a left-padded cell is
/// `w - len` pad characters followed by the trimmed input.
pub proof fn lemma_pad_fills(s: Seq<char>, w: int, p: char)
    requires
        w >= 0,
        spec_trim(s).len() <= w,
    ensures
        spec_right_pad(s, w, p) == spec_trim(s) + Seq::new(
            (w - spec_trim(s).len()) as nat,
            |k: int| p,
        ),
        spec_right_pad(s, w, p).subrange(0, spec_trim(s).len() as int) == spec_trim(s),
        forall|i: int|
            spec_trim(s).len() <= i < w ==> spec_right_pad(s, w, p)[i] == p,
        spec_left_pad(s, w, p) == Seq::new((w - spec_trim(s).len()) as nat, |k: int| p)
            + spec_trim(s),
        spec_left_pad(s, w, p).subrange(w - spec_trim(s).len(), w) == spec_trim(s),
        forall|i: int|
            0 <= i < w - spec_trim(s).len() ==> spec_left_pad(s, w, p)[i] == p,
{
    assert(spec_right_pad(s, w, p).subrange(0, spec_trim(s).len() as int) =~= spec_trim(s));
    assert(spec_left_pad(s, w, p).subrange(w - spec_trim(s).len(), w) =~= spec_trim(s));
}

} // verus!
