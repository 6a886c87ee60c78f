//! Pure text-layout helpers shared by the renderers.
use vstd::prelude::*;

verus! {

use vstd::string::StrSliceExecFns;
use vstd::string::StringExecFns;

/// `n` copies of `unit`, concatenated.
pub open spec fn spec_repeat(unit: Seq<char>, n: nat) -> Seq<char>
    decreases n,
{
    if n == 0 {
        Seq::empty()
    } else {
        spec_repeat(unit, (n - 1) as nat) + unit
    }
}

/// `s` left-padded with copies of `unit` up to width `w`.
pub open spec fn spec_pad_left(s: Seq<char>, w: nat, unit: Seq<char>) -> Seq<char> {
    if s.len() >= w {
        s
    } else {
        spec_repeat(unit, (w - s.len()) as nat) + s
    }
}

/// The first `n` characters of `s`, or all of it when shorter.
pub open spec fn spec_truncate(s: Seq<char>, n: nat) -> Seq<char> {
    if s.len() <= n {
        s
    } else {
        s.subrange(0, n as int)
    }
}

/// `n` copies of `unit`, concatenated.
pub fn repeat_str(unit: &str, n: usize) -> (r: String)
    ensures
        r@ == spec_repeat(unit@, n as nat),
{
    let mut out = String::new();
    let mut k: usize = 0;
    while k < n
        invariant
            0 <= k <= n,
            out@ == spec_repeat(unit@, k as nat),
        decreases n - k,
    {
        out.append(unit);
        k = k + 1;
    }
    out
}

/// `s` left-padded with copies of `unit` (one character) up to `width`.
pub fn pad_left(s: &str, width: usize, unit: &str) -> (r: String)
    ensures
        r@ == spec_pad_left(s@, width as nat, unit@),
{
    let len = s.unicode_len();
    if len >= width {
        String::from_str(s)
    } else {
        let mut out = repeat_str(unit, width - len);
        out.append(s);
        out
    }
}

/// The first `n` characters of `s`, or all of it when shorter.
pub fn truncate_chars(s: &str, n: usize) -> (r: String)
    ensures
        r@ == spec_truncate(s@, n as nat),
{
    let len = s.unicode_len();
    if len <= n {
        String::from_str(s)
    } else {
        let cut = s.substring_char(0, n);
        proof {
            assert(cut@ =~= spec_truncate(s@, n as nat));
        }
        String::from_str(cut)
    }
}

} // verus!
