//! Parsing of the values the command line hands the library: play
//! orders, track lengths, and the trending identifier syntax
//! `trending[:genre[:time]]`.
use vstd::prelude::*;

verus! {

use crate::PlayOrder;
use crate::text::str_eq;
use crate::utils::pow10;
use vstd::string::StrSliceExecFns;
use vstd::string::StringExecFns;

/// An argument could not be parsed; carries a description.
#[derive(Debug)]
pub struct ParseArgError {
    pub details: String,
}

impl ParseArgError {
    /// The description, for display.
    pub fn message(&self) -> (r: String)
        ensures
            r@ == self.details@,
    {
        self.details.clone()
    }
}

/// The play order a word denotes.
pub open spec fn spec_play_order(s: Seq<char>) -> Option<PlayOrder> {
    if s == "asc"@ {
        Some(PlayOrder::Ascending)
    } else if s == "desc"@ {
        Some(PlayOrder::Descending)
    } else if s == "rand"@ {
        Some(PlayOrder::Random)
    } else {
        None
    }
}

impl PlayOrder {
    /// Parses `asc`, `desc` or `rand`; anything else is an error that
    /// names the word.
    pub fn pico_parse(s: &str) -> (r: Result<PlayOrder, ParseArgError>)
        ensures
            match r {
                Ok(o) => spec_play_order(s@) == Some(o),
                Err(e) => spec_play_order(s@) is None && e.details@ == s@
                    + " is not a valid order"@,
            },
    {
        if str_eq(s, "asc") {
            Ok(PlayOrder::Ascending)
        } else if str_eq(s, "desc") {
            Ok(PlayOrder::Descending)
        } else if str_eq(s, "rand") {
            Ok(PlayOrder::Random)
        } else {
            Err(
                ParseArgError {
                    details: String::from_str(s).concat(" is not a valid order"),
                },
            )
        }
    }
}

/// Optional genre and time range of a trending identifier.  An empty
/// segment counts as absent.
pub struct TrendingArgs {
    pub genre: Option<String>,
    pub time: Option<String>,
}

/// Whether an identifier takes the trending path: the word `trending`,
/// alone or followed by a colon.
pub open spec fn spec_is_trending(s: Seq<char>) -> bool {
    s.len() >= 8 && s.subrange(0, 8) == "trending"@ && (s.len() == 8 || s[8] == ':')
}

pub fn is_trending(s: &str) -> (r: bool)
    ensures
        r == spec_is_trending(s@),
{
    proof {
        reveal_strlit("trending");
    }
    let n = s.unicode_len();
    if n < 8 {
        return false;
    }
    let mut k: usize = 0;
    while k < 8
        invariant
            0 <= k <= 8,
            n == s@.len(),
            n >= 8,
            "trending"@.len() == 8,
            forall|m: int| 0 <= m < k ==> s@[m] == "trending"@[m],
        decreases 8 - k,
    {
        if s.get_char(k) != "trending".get_char(k) {
            proof {
                assert(s@.subrange(0, 8)[k as int] != "trending"@[k as int]);
            }
            return false;
        }
        k = k + 1;
    }
    proof {
        assert(s@.subrange(0, 8) =~= "trending"@);
    }
    if n == 8 {
        true
    } else {
        s.get_char(8) == ':'
    }
}

/// First position at or after `i` holding a colon, or the length.
pub open spec fn spec_colon_after(s: Seq<char>, i: int) -> int
    decreases s.len() - i,
{
    if 0 <= i < s.len() && s[i] != ':' {
        spec_colon_after(s, i + 1)
    } else {
        i
    }
}

/// The genre segment of a trending identifier (empty when absent).
pub open spec fn spec_trending_genre(s: Seq<char>) -> Seq<char> {
    if s.len() < 9 {
        Seq::empty()
    } else {
        s.subrange(9, spec_colon_after(s, 9))
    }
}

/// The time segment of a trending identifier (empty when absent).
pub open spec fn spec_trending_time(s: Seq<char>) -> Seq<char> {
    if s.len() < 9 || spec_colon_after(s, 9) >= s.len() {
        Seq::empty()
    } else {
        s.subrange(spec_colon_after(s, 9) + 1, s.len() as int)
    }
}

/// Splits `trending[:genre[:time]]` into its optional genre and time
/// fields; empty segments are treated as absent.
pub fn parse_trending_arg(s: &str) -> (r: TrendingArgs)
    ensures
        match r.genre {
            Some(g) => g@ == spec_trending_genre(s@) && g@.len() > 0,
            None => spec_trending_genre(s@).len() == 0,
        },
        match r.time {
            Some(t) => t@ == spec_trending_time(s@) && t@.len() > 0,
            None => spec_trending_time(s@).len() == 0,
        },
{
    let n = s.unicode_len();
    if n < 9 {
        return TrendingArgs { genre: None, time: None };
    }
    let mut c2: usize = 9;
    while c2 < n && s.get_char(c2) != ':'
        invariant
            9 <= c2 <= n,
            n == s@.len(),
            spec_colon_after(s@, 9) == spec_colon_after(s@, c2 as int),
        decreases n - c2,
    {
        c2 = c2 + 1;
    }
    let genre_str = s.substring_char(9, c2);
    let genre: Option<String> = if genre_str.unicode_len() > 0 {
        Some(String::from_str(genre_str))
    } else {
        None
    };
    let time: Option<String> = if c2 < n {
        let time_str = s.substring_char(c2 + 1, n);
        if time_str.unicode_len() > 0 {
            Some(String::from_str(time_str))
        } else {
            None
        }
    } else {
        None
    };
    TrendingArgs { genre, time }
}

pub open spec fn is_digit_char(c: char) -> bool {
    48 <= c as u32 <= 57
}

/// First position at or after `i` holding a non-digit, or the length.
pub open spec fn spec_cdigits_end(s: Seq<char>, i: int) -> int
    decreases s.len() - i,
{
    if 0 <= i < s.len() && is_digit_char(s[i]) {
        spec_cdigits_end(s, i + 1)
    } else {
        i
    }
}

/// First position at or after `i` holding a digit, or the length.
pub open spec fn spec_unit_end(s: Seq<char>, i: int) -> int
    decreases s.len() - i,
{
    if 0 <= i < s.len() && !is_digit_char(s[i]) {
        spec_unit_end(s, i + 1)
    } else {
        i
    }
}

/// The value of the decimal digits `s[i..j]`.
pub open spec fn spec_cdigits_val(s: Seq<char>, i: int, j: int) -> nat
    decreases j - i,
{
    if i >= j {
        0
    } else {
        spec_cdigits_val(s, i, j - 1) * 10 + (s[j - 1] as u32 - 48) as nat
    }
}

/// The seconds a track-length word denotes from position `i` on, or
/// the description of why it does not parse.  The word splits into
/// groups, each a run of digits followed by a run of non-digit
/// characters (its unit); a trailing run of digits with no unit after
/// it is silently dropped.  A group with no digits, or whose number
/// does not fit `u64`, fails as the integer parse describes it; a unit
/// other than `h`, `m` or `s` fails naming the unit.
pub open spec fn spec_duration_from(s: Seq<char>, i: int) -> Result<nat, Seq<char>>
    decreases s.len() - i,
{
    if i >= s.len() {
        Ok(0)
    } else {
        let de = spec_cdigits_end(s, i);
        if de >= s.len() {
            Ok(0)
        } else {
            let ue = spec_unit_end(s, de);
            if de == i {
                Err("cannot parse integer from empty string"@)
            } else if spec_cdigits_val(s, i, de) > u64::MAX {
                Err("number too large to fit in target type"@)
            } else if !(s.subrange(de, ue) == "h"@ || s.subrange(de, ue) == "m"@ || s.subrange(
                de,
                ue,
            ) == "s"@) {
                Err(s.subrange(de, ue) + " is not a valid unit"@)
            } else {
                let mult: nat = if s.subrange(de, ue) == "h"@ {
                    3600
                } else if s.subrange(de, ue) == "m"@ {
                    60
                } else {
                    1
                };
                if i < ue <= s.len() {
                    match spec_duration_from(s, ue) {
                        Ok(rest) => Ok(spec_cdigits_val(s, i, de) * mult + rest),
                        Err(m) => Err(m),
                    }
                } else {
                    Ok(0)
                }
            }
        }
    }
}

/// Whether a character is the digit zero.
pub open spec fn is_zero_char(c: char) -> bool {
    c as u32 == 48
}

/// First position in `[i, j)` holding something other than `0`, or `j`.
pub open spec fn spec_zeros_end(s: Seq<char>, i: int, j: int) -> int
    decreases j - i,
{
    if 0 <= i < j <= s.len() && is_zero_char(s[i]) {
        spec_zeros_end(s, i + 1, j)
    } else {
        i
    }
}

/// The seconds a whole track-length word denotes, or the failure's
/// description.  A sum of groups beyond `u64` seconds is an error too:
/// the arithmetic here is checked, never wrapping.
pub open spec fn spec_parse_duration(s: Seq<char>) -> Result<u64, Seq<char>> {
    match spec_duration_from(s, 0) {
        Ok(n) => if n <= u64::MAX {
            Ok(n as u64)
        } else {
            Err("duration is too long"@)
        },
        Err(m) => Err(m),
    }
}

/// A run of `j - i` decimal digits is below ten to that count.
proof fn lemma_cdigits_val_bound(s: Seq<char>, i: int, j: int)
    requires
        forall|k: int| i <= k < j ==> is_digit_char(s[k]),
    ensures
        spec_cdigits_val(s, i, j) < pow10(if j >= i {
            (j - i) as nat
        } else {
            0
        }),
    decreases j - i,
{
    if i < j {
        lemma_cdigits_val_bound(s, i, j - 1);
    }
}

/// A run of digits whose first digit is not zero is at least ten to
/// one less than its count.
proof fn lemma_cdigits_val_lower(s: Seq<char>, z: int, j: int)
    requires
        z < j,
        forall|k: int| z <= k < j ==> is_digit_char(s[k]),
        !is_zero_char(s[z]),
    ensures
        spec_cdigits_val(s, z, j) >= pow10((j - z - 1) as nat),
    decreases j - z,
{
    if z + 1 == j {
        assert(s[z] as u32 > 48);
    } else {
        lemma_cdigits_val_lower(s, z, j - 1);
        assert(pow10((j - z - 1) as nat) == 10 * pow10((j - z - 2) as nat));
    }
}

/// A run of zeros has value zero.
proof fn lemma_cdigits_val_zeros(s: Seq<char>, i: int, j: int)
    requires
        forall|k: int| i <= k < j ==> is_zero_char(s[k]),
    ensures
        spec_cdigits_val(s, i, j) == 0,
    decreases j - i,
{
    if i < j {
        lemma_cdigits_val_zeros(s, i, j - 1);
        assert(s[j - 1] as u32 == 48);
    }
}

/// Leading zeros do not change a run's value.
proof fn lemma_cdigits_val_skip_zeros(s: Seq<char>, i: int, z: int, j: int)
    requires
        i <= z <= j,
        forall|k: int| i <= k < z ==> is_zero_char(s[k]),
    ensures
        spec_cdigits_val(s, i, j) == spec_cdigits_val(s, z, j),
    decreases j - z,
{
    if j <= z {
        lemma_cdigits_val_zeros(s, i, j);
    } else {
        lemma_cdigits_val_skip_zeros(s, i, z, j - 1);
    }
}

proof fn lemma_unit_end_ge(s: Seq<char>, i: int)
    ensures
        spec_unit_end(s, i) >= i,
    decreases s.len() - i,
{
    if 0 <= i < s.len() && !is_digit_char(s[i]) {
        lemma_unit_end_ge(s, i + 1);
    }
}

fn digit_char(c: char) -> (r: bool)
    ensures
        r == is_digit_char(c),
{
    48 <= c as u32 && c as u32 <= 57
}

fn zero_char(c: char) -> (r: bool)
    ensures
        r == is_zero_char(c),
{
    c as u32 == 48
}

fn cdigits_end(s: &str, i: usize) -> (r: usize)
    requires
        i <= s@.len(),
    ensures
        r as int == spec_cdigits_end(s@, i as int),
        i <= r <= s@.len(),
        forall|m: int| i <= m < r ==> is_digit_char(s@[m]),
        r < s@.len() ==> !is_digit_char(s@[r as int]),
{
    let n = s.unicode_len();
    let mut k: usize = i;
    while k < n && digit_char(s.get_char(k))
        invariant
            i <= k <= n,
            n == s@.len(),
            spec_cdigits_end(s@, i as int) == spec_cdigits_end(s@, k as int),
            forall|m: int| i <= m < k ==> is_digit_char(s@[m]),
        decreases n - k,
    {
        k = k + 1;
    }
    k
}

fn unit_end(s: &str, i: usize) -> (r: usize)
    requires
        i <= s@.len(),
    ensures
        r as int == spec_unit_end(s@, i as int),
        i <= r <= s@.len(),
{
    let n = s.unicode_len();
    let mut k: usize = i;
    while k < n && !digit_char(s.get_char(k))
        invariant
            i <= k <= n,
            n == s@.len(),
            spec_unit_end(s@, i as int) == spec_unit_end(s@, k as int),
        decreases n - k,
    {
        k = k + 1;
    }
    k
}

fn zeros_end(s: &str, i: usize, j: usize) -> (r: usize)
    requires
        i <= j <= s@.len(),
    ensures
        r as int == spec_zeros_end(s@, i as int, j as int),
        i <= r <= j,
        forall|m: int| i <= m < r ==> is_zero_char(s@[m]),
        r < j ==> !is_zero_char(s@[r as int]),
    decreases j - i,
{
    let mut k: usize = i;
    while k < j && zero_char(s.get_char(k))
        invariant
            i <= k <= j <= s@.len(),
            spec_zeros_end(s@, i as int, j as int) == spec_zeros_end(s@, k as int, j as int),
            forall|m: int| i <= m < k ==> is_zero_char(s@[m]),
        decreases j - k,
    {
        k = k + 1;
    }
    k
}

/// The value of up to twenty digits, wide enough never to overflow.
fn cdigits_val_wide(s: &str, i: usize, j: usize) -> (r: u128)
    requires
        i <= j <= s@.len(),
        j - i <= 20,
        forall|m: int| i <= m < j ==> is_digit_char(s@[m]),
    ensures
        r as nat == spec_cdigits_val(s@, i as int, j as int),
{
    let mut acc: u128 = 0;
    let mut k: usize = i;
    while k < j
        invariant
            i <= k <= j <= s@.len(),
            j - i <= 20,
            forall|m: int| i <= m < j ==> is_digit_char(s@[m]),
            acc as nat == spec_cdigits_val(s@, i as int, k as int),
        decreases j - k,
    {
        proof {
            lemma_cdigits_val_bound(s@, i as int, k as int);
            crate::utils::lemma_pow10_mono((k - i) as nat, 19);
            assert(pow10(19) == 10000000000000000000) by {
                reveal_with_fuel(pow10, 20);
            }
        }
        let c = s.get_char(k);
        acc = acc * 10 + ((c as u32 - 48) as u128);
        k = k + 1;
    }
    acc
}

fn duration_from(s: &str, i: usize) -> (r: Result<u64, String>)
    requires
        i <= s@.len(),
    ensures
        match (r, spec_duration_from(s@, i as int)) {
            (Ok(v), Ok(n)) => v as nat == n,
            (Err(m), Ok(n)) => n > u64::MAX && m@ == "duration is too long"@,
            (Err(m), Err(sm)) => m@ == sm,
            (Ok(_), Err(_)) => false,
        },
    decreases s@.len() - i,
{
    let n = s.unicode_len();
    if i >= n {
        return Ok(0);
    }
    let de = cdigits_end(s, i);
    if de >= n {
        return Ok(0);
    }
    let ue = unit_end(s, de);
    proof {
        lemma_unit_end_ge(s@, de as int + 1);
        assert(spec_unit_end(s@, de as int) == spec_unit_end(s@, de as int + 1));
    }
    if de == i {
        return Err(String::from_str("cannot parse integer from empty string"));
    }
    let z = zeros_end(s, i, de);
    proof {
        lemma_cdigits_val_skip_zeros(s@, i as int, z as int, de as int);
    }
    if de - z > 20 {
        proof {
            lemma_cdigits_val_lower(s@, z as int, de as int);
            crate::utils::lemma_pow10_mono(20, (de - z - 1) as nat);
            assert(pow10(20) == 100000000000000000000) by {
                reveal_with_fuel(pow10, 21);
            }
        }
        return Err(String::from_str("number too large to fit in target type"));
    }
    let num_wide = cdigits_val_wide(s, z, de);
    if num_wide > 0xFFFF_FFFF_FFFF_FFFFu128 {
        return Err(String::from_str("number too large to fit in target type"));
    }
    let num = num_wide as u64;
    proof {
        reveal_strlit("h");
        reveal_strlit("m");
        reveal_strlit("s");
    }
    let ghost unit = s@.subrange(de as int, ue as int);
    let uc = s.get_char(de);
    let unit_ok = (ue - de == 1) && (uc == 'h' || uc == 'm' || uc == 's');
    if !unit_ok {
        proof {
            if ue - de != 1 {
                assert(unit.len() != 1);
            } else {
                assert(unit[0] == uc);
            }
            assert(unit != "h"@ && unit != "m"@ && unit != "s"@);
        }
        let unit_str = s.substring_char(de, ue);
        return Err(String::from_str(unit_str).concat(" is not a valid unit"));
    }
    let mult: u64 = if uc == 'h' {
        3600
    } else if uc == 'm' {
        60
    } else {
        1
    };
    proof {
        assert(unit[0] == uc);
        if uc == 'h' {
            assert(unit =~= "h"@);
        } else if uc == 'm' {
            assert(unit =~= "m"@);
            assert(unit != "h"@);
        } else {
            assert(unit =~= "s"@);
            assert(unit != "h"@ && unit != "m"@);
        }
    }
    let rest = match duration_from(s, ue) {
        Ok(v) => v,
        Err(m) => {
            return Err(m);
        },
    };
    let prod = match num.checked_mul(mult) {
        Some(p) => p,
        None => {
            return Err(String::from_str("duration is too long"));
        },
    };
    match prod.checked_add(rest) {
        Some(total) => Ok(total),
        None => Err(String::from_str("duration is too long")),
    }
}

/// Parses a track-length word such as `1h30m15s` into whole seconds:
/// groups of digits, each followed by the unit `h`, `m` or `s`, summed.
/// A trailing group of digits with no unit is silently dropped, and
/// the empty word is zero seconds.  The error carries the failure's
/// description: the integer parse's own words for a missing or
/// oversized number, the offending unit's name for an unknown unit,
/// and a note of its own for a sum beyond `u64` seconds (where
/// unchecked arithmetic would wrap, this library refuses instead).
pub fn parse_duration(s: &str) -> (r: Result<u64, ParseArgError>)
    ensures
        match r {
            Ok(v) => spec_parse_duration(s@) == Ok::<u64, Seq<char>>(v),
            Err(e) => spec_parse_duration(s@) matches Err(m) && e.details@ == m,
        },
{
    match duration_from(s, 0) {
        Ok(v) => Ok(v),
        Err(m) => Err(ParseArgError { details: m }),
    }
}

} // verus!
