//! A small JSON reader for the catalog's response bodies.
//!
//! The catalog answers every request with a JSON document whose shape is
//! only discovered by decoding it, so the library reads the raw bytes
//! itself: [`parse_json`] turns a body into a [`Json`] value, and the
//! resolver inspects that value.  The reader accepts objects, arrays,
//! strings (with the standard escapes, including `\u` surrogate pairs),
//! numbers, booleans and null.  A number that is a plain unsigned
//! integer of at most 19 digits keeps its value; any other number is
//! consumed but carried as [`Json::NumOther`], since no field the
//! library reads holds one.
//!
//! The grammar is written down once as a specification-level parser
//! (`spec_parse_json` and its helpers); the executable parser returns
//! exactly what the specification parser denotes.
use vstd::prelude::*;

verus! {

use crate::utils::lemma_pow10_mono;
use crate::utils::pow10;

/// A decoded JSON value.  String contents are kept as UTF-8 bytes.
pub enum Json {
    Null,
    Bool(bool),
    /// A number written as a plain unsigned integer of at most 19 digits.
    Int(u64),
    /// Any other number: consumed, but its value is not kept.
    NumOther,
    Str(Vec<u8>),
    Arr(Vec<Json>),
    Obj(Vec<(Vec<u8>, Json)>),
}

/// The mathematical shadow of [`Json`], used by the contracts.
pub enum JsonV {
    Null,
    Bool(bool),
    Int(u64),
    NumOther,
    Str(Seq<u8>),
    Arr(Seq<JsonV>),
    Obj(Seq<(Seq<u8>, JsonV)>),
}

/// The value a [`Json`] denotes.
pub open spec fn jv(j: Json) -> JsonV
    decreases j, 1int,
    via jv_dec
{
    match j {
        Json::Null => JsonV::Null,
        Json::Bool(b) => JsonV::Bool(b),
        Json::Int(n) => JsonV::Int(n),
        Json::NumOther => JsonV::NumOther,
        Json::Str(s) => JsonV::Str(s@),
        Json::Arr(v) => JsonV::Arr(jvs(v@)),
        Json::Obj(m) => JsonV::Obj(jvm(m@)),
    }
}

/// The values a sequence of [`Json`] denotes, elementwise.
pub open spec fn jvs(v: Seq<Json>) -> Seq<JsonV>
    decreases v, 0int,
{
    if v.len() == 0 {
        Seq::empty()
    } else {
        seq![jv(v[0])] + jvs(v.subrange(1, v.len() as int))
    }
}

/// The pairs a sequence of object members denotes, elementwise.
pub open spec fn jvm(m: Seq<(Vec<u8>, Json)>) -> Seq<(Seq<u8>, JsonV)>
    decreases m, 0int,
{
    if m.len() == 0 {
        Seq::empty()
    } else {
        seq![(m[0].0@, jv(m[0].1))] + jvm(m.subrange(1, m.len() as int))
    }
}

#[via_fn]
proof fn jv_dec(j: Json) {
    match j {
        Json::Arr(v) => {
            assert(decreases_to!(j => v));
            assert(decreases_to!(v => v@));
        },
        Json::Obj(m) => {
            assert(decreases_to!(j => m));
            assert(decreases_to!(m => m@));
        },
        _ => {
        },
    }
}

pub open spec fn is_ws(b: u8) -> bool {
    b == 32 || b == 9 || b == 10 || b == 13
}

pub open spec fn is_digit(b: u8) -> bool {
    48 <= b <= 57
}

/// First position at or after `i` holding something other than whitespace.
pub open spec fn spec_skip_ws(s: Seq<u8>, i: int) -> int
    decreases s.len() - i,
{
    if 0 <= i < s.len() && is_ws(s[i]) {
        spec_skip_ws(s, i + 1)
    } else {
        i
    }
}

/// First position at or after `i` holding something other than a digit.
pub open spec fn spec_digits_end(s: Seq<u8>, i: int) -> int
    decreases s.len() - i,
{
    if 0 <= i < s.len() && is_digit(s[i]) {
        spec_digits_end(s, i + 1)
    } else {
        i
    }
}

/// The value of the decimal digits `s[i..j]`.
pub open spec fn spec_digits_val(s: Seq<u8>, i: int, j: int) -> nat
    decreases j - i,
{
    if i >= j {
        0
    } else {
        spec_digits_val(s, i, j - 1) * 10 + (s[j - 1] - 48) as nat
    }
}

/// A run of `j - i` decimal digits is below ten to that count.
pub proof fn lemma_digits_val_bound(s: Seq<u8>, i: int, j: int)
    requires
        forall|k: int| i <= k < j ==> is_digit(s[k]),
    ensures
        spec_digits_val(s, i, j) < pow10(if j >= i {
            (j - i) as nat
        } else {
            0
        }),
    decreases j - i,
{
    if i < j {
        lemma_digits_val_bound(s, i, j - 1);
    }
}

/// The UTF-8 encoding of the scalar value `c`.
pub open spec fn spec_utf8_encode(c: u32) -> Seq<u8> {
    if c < 0x80 {
        seq![c as u8]
    } else if c < 0x800 {
        seq![(0xC0 + c / 0x40) as u8, (0x80 + c % 0x40) as u8]
    } else if c < 0x10000 {
        seq![
            (0xE0 + c / 0x1000) as u8,
            (0x80 + (c / 0x40) % 0x40) as u8,
            (0x80 + c % 0x40) as u8,
        ]
    } else {
        seq![
            (0xF0 + c / 0x40000) as u8,
            (0x80 + (c / 0x1000) % 0x40) as u8,
            (0x80 + (c / 0x40) % 0x40) as u8,
            (0x80 + c % 0x40) as u8,
        ]
    }
}

pub open spec fn spec_hex_val(b: u8) -> Option<u32> {
    if 48 <= b <= 57 {
        Some((b - 48) as u32)
    } else if 97 <= b <= 102 {
        Some((b - 87) as u32)
    } else if 65 <= b <= 70 {
        Some((b - 55) as u32)
    } else {
        None
    }
}

/// The value of the four hex digits `s[i..i+4]`.
pub open spec fn spec_hex4(s: Seq<u8>, i: int) -> Option<u32> {
    if i + 4 <= s.len() {
        match (spec_hex_val(s[i]), spec_hex_val(s[i + 1]), spec_hex_val(s[i + 2]), spec_hex_val(
            s[i + 3],
        )) {
            (Some(a), Some(b), Some(c), Some(d)) => Some(
                (a * 0x1000 + b * 0x100 + c * 0x10 + d) as u32,
            ),
            _ => None,
        }
    } else {
        None
    }
}

/// Decodes the escape that begins right after a backslash at `i`:
/// the bytes it stands for and the position after it.
pub open spec fn spec_escape(s: Seq<u8>, i: int) -> Option<(Seq<u8>, int)> {
    if i >= s.len() {
        None
    } else if s[i] == 34 || s[i] == 92 || s[i] == 47 {
        Some((seq![s[i]], i + 1))
    } else if s[i] == 98 {
        Some((seq![8u8], i + 1))
    } else if s[i] == 102 {
        Some((seq![12u8], i + 1))
    } else if s[i] == 110 {
        Some((seq![10u8], i + 1))
    } else if s[i] == 114 {
        Some((seq![13u8], i + 1))
    } else if s[i] == 116 {
        Some((seq![9u8], i + 1))
    } else if s[i] == 117 {
        match spec_hex4(s, i + 1) {
            None => None,
            Some(c) => if 0xD800 <= c < 0xDC00 {
                if i + 7 <= s.len() && s[i + 5] == 92 && s[i + 6] == 117 {
                    match spec_hex4(s, i + 7) {
                        None => None,
                        Some(lo) => if 0xDC00 <= lo < 0xE000 {
                            Some(
                                (
                                    spec_utf8_encode(
                                        (0x10000 + (c - 0xD800) * 0x400 + (lo - 0xDC00)) as u32,
                                    ),
                                    i + 11,
                                ),
                            )
                        } else {
                            None
                        },
                    }
                } else {
                    None
                }
            } else if 0xDC00 <= c < 0xE000 {
                None
            } else {
                Some((spec_utf8_encode(c), i + 5))
            },
        }
    } else {
        None
    }
}

/// Reads a string body starting at `i` (just after the opening quote):
/// the decoded contents and the position after the closing quote.
pub open spec fn spec_string_body(s: Seq<u8>, i: int) -> Option<(Seq<u8>, int)>
    decreases s.len() - i,
{
    if i < 0 || i >= s.len() {
        None
    } else if s[i] == 34 {
        Some((Seq::empty(), i + 1))
    } else if s[i] == 92 {
        match spec_escape(s, i + 1) {
            None => None,
            Some((bytes, e)) => if e > i {
                match spec_string_body(s, e) {
                    None => None,
                    Some((rest, re)) => Some((bytes + rest, re)),
                }
            } else {
                None
            },
        }
    } else if s[i] < 0x20 {
        None
    } else {
        match spec_string_body(s, i + 1) {
            None => None,
            Some((rest, re)) => Some((seq![s[i]] + rest, re)),
        }
    }
}

/// Reads a number starting at `i`: its value and the position after it.
pub open spec fn spec_number(s: Seq<u8>, i: int) -> Option<(JsonV, int)> {
    let di = if 0 <= i < s.len() && s[i] == 45 {
        i + 1
    } else {
        i
    };
    if !(0 <= di < s.len() && is_digit(s[di])) {
        None
    } else {
        let de = spec_digits_end(s, di);
        let has_frac = de < s.len() && s[de] == 46;
        if has_frac && !(de + 1 < s.len() && is_digit(s[de + 1])) {
            None
        } else {
            let fe = if has_frac {
                spec_digits_end(s, de + 1)
            } else {
                de
            };
            let has_exp = fe < s.len() && (s[fe] == 101 || s[fe] == 69);
            let si = if has_exp {
                if fe + 1 < s.len() && (s[fe + 1] == 43 || s[fe + 1] == 45) {
                    fe + 2
                } else {
                    fe + 1
                }
            } else {
                fe
            };
            if has_exp && !(si < s.len() && is_digit(s[si])) {
                None
            } else {
                let ee = if has_exp {
                    spec_digits_end(s, si)
                } else {
                    fe
                };
                if di > i || has_frac || has_exp || de - di > 19 {
                    Some((JsonV::NumOther, ee))
                } else {
                    Some((JsonV::Int(spec_digits_val(s, di, de) as u64), ee))
                }
            }
        }
    }
}

/// Reads the four bytes of `true`, `false` or `null`.
pub open spec fn spec_keyword_at(s: Seq<u8>, i: int, kw: Seq<u8>) -> bool {
    &&& i >= 0
    &&& i + kw.len() <= s.len()
    &&& forall|k: int| 0 <= k < kw.len() ==> s[i + k] == kw[k]
}

/// Reads one JSON value starting at `i`, whitespace allowed before it:
/// the value and the position after it.  `fuel` bounds the recursion;
/// [`spec_parse_json`] supplies one unit per input byte, which covers
/// every document (each parsing step consumes at least one byte).
pub open spec fn spec_parse_value(s: Seq<u8>, i: int, fuel: nat) -> Option<(JsonV, int)>
    decreases fuel,
{
    if fuel == 0 {
        None
    } else {
        let j = spec_skip_ws(s, i);
        if !(0 <= j < s.len()) {
            None
        } else if s[j] == 110 {
            if spec_keyword_at(s, j, seq![110u8, 117u8, 108u8, 108u8]) {
                Some((JsonV::Null, j + 4))
            } else {
                None
            }
        } else if s[j] == 116 {
            if spec_keyword_at(s, j, seq![116u8, 114u8, 117u8, 101u8]) {
                Some((JsonV::Bool(true), j + 4))
            } else {
                None
            }
        } else if s[j] == 102 {
            if spec_keyword_at(s, j, seq![102u8, 97u8, 108u8, 115u8, 101u8]) {
                Some((JsonV::Bool(false), j + 5))
            } else {
                None
            }
        } else if s[j] == 34 {
            match spec_string_body(s, j + 1) {
                None => None,
                Some((content, e)) => Some((JsonV::Str(content), e)),
            }
        } else if s[j] == 91 {
            let k = spec_skip_ws(s, j + 1);
            if 0 <= k < s.len() && s[k] == 93 {
                Some((JsonV::Arr(Seq::empty()), k + 1))
            } else {
                match spec_parse_items(s, j + 1, (fuel - 1) as nat) {
                    None => None,
                    Some((items, e)) => Some((JsonV::Arr(items), e)),
                }
            }
        } else if s[j] == 123 {
            let k = spec_skip_ws(s, j + 1);
            if 0 <= k < s.len() && s[k] == 125 {
                Some((JsonV::Obj(Seq::empty()), k + 1))
            } else {
                match spec_parse_members(s, j + 1, (fuel - 1) as nat) {
                    None => None,
                    Some((members, e)) => Some((JsonV::Obj(members), e)),
                }
            }
        } else if s[j] == 45 || is_digit(s[j]) {
            spec_number(s, j)
        } else {
            None
        }
    }
}

/// Reads one or more comma-separated array elements and the closing
/// bracket.
pub open spec fn spec_parse_items(s: Seq<u8>, i: int, fuel: nat) -> Option<(Seq<JsonV>, int)>
    decreases fuel,
{
    if fuel == 0 {
        None
    } else {
        match spec_parse_value(s, i, (fuel - 1) as nat) {
            None => None,
            Some((v, e)) => {
                let k = spec_skip_ws(s, e);
                if !(0 <= k < s.len()) {
                    None
                } else if s[k] == 93 {
                    Some((seq![v], k + 1))
                } else if s[k] == 44 {
                    match spec_parse_items(s, k + 1, (fuel - 1) as nat) {
                        None => None,
                        Some((rest, re)) => Some((seq![v] + rest, re)),
                    }
                } else {
                    None
                }
            },
        }
    }
}

/// Reads one or more `"key": value` members and the closing brace.
pub open spec fn spec_parse_members(s: Seq<u8>, i: int, fuel: nat) -> Option<
    (Seq<(Seq<u8>, JsonV)>, int),
>
    decreases fuel,
{
    if fuel == 0 {
        None
    } else {
        let j = spec_skip_ws(s, i);
        if !(0 <= j < s.len() && s[j] == 34) {
            None
        } else {
            match spec_string_body(s, j + 1) {
                None => None,
                Some((key, ke)) => {
                    let c = spec_skip_ws(s, ke);
                    if !(0 <= c < s.len() && s[c] == 58) {
                        None
                    } else {
                        match spec_parse_value(s, c + 1, (fuel - 1) as nat) {
                            None => None,
                            Some((v, e)) => {
                                let k = spec_skip_ws(s, e);
                                if !(0 <= k < s.len()) {
                                    None
                                } else if s[k] == 125 {
                                    Some((seq![(key, v)], k + 1))
                                } else if s[k] == 44 {
                                    match spec_parse_members(s, k + 1, (fuel - 1) as nat) {
                                        None => None,
                                        Some((rest, re)) => Some((seq![(key, v)] + rest, re)),
                                    }
                                } else {
                                    None
                                }
                            },
                        }
                    }
                },
            }
        }
    }
}

/// The document a whole body denotes: one value, with nothing but
/// whitespace after it.
pub open spec fn spec_parse_json(s: Seq<u8>) -> Option<JsonV> {
    match spec_parse_value(s, 0, s.len()) {
        None => None,
        Some((v, e)) => if spec_skip_ws(s, e) == s.len() {
            Some(v)
        } else {
            None
        },
    }
}

/// How an executable parse result must relate to the specification
/// parser's: same success, same denoted value, same end position.
pub open spec fn pv_match(r: Option<(Json, usize)>, v: Option<(JsonV, int)>) -> bool {
    match (r, v) {
        (None, None) => true,
        (Some((j, e)), Some((sv, se))) => jv(j) == sv && e as int == se,
        _ => false,
    }
}

pub open spec fn pi_match(r: Option<(Vec<Json>, usize)>, v: Option<(Seq<JsonV>, int)>) -> bool {
    match (r, v) {
        (None, None) => true,
        (Some((items, e)), Some((sv, se))) => jvs(items@) == sv && e as int == se,
        _ => false,
    }
}

pub open spec fn pm_match(
    r: Option<(Vec<(Vec<u8>, Json)>, usize)>,
    v: Option<(Seq<(Seq<u8>, JsonV)>, int)>,
) -> bool {
    match (r, v) {
        (None, None) => true,
        (Some((members, e)), Some((sv, se))) => jvm(members@) == sv && e as int == se,
        _ => false,
    }
}

fn ws_byte(b: u8) -> (r: bool)
    ensures
        r == is_ws(b),
{
    b == 32 || b == 9 || b == 10 || b == 13
}

fn digit_byte(b: u8) -> (r: bool)
    ensures
        r == is_digit(b),
{
    48 <= b && b <= 57
}

fn skip_ws(s: &Vec<u8>, i: usize) -> (r: usize)
    requires
        i <= s.len(),
    ensures
        r as int == spec_skip_ws(s@, i as int),
        i <= r <= s.len(),
{
    let mut k: usize = i;
    while k < s.len() && ws_byte(s[k])
        invariant
            i <= k <= s.len(),
            spec_skip_ws(s@, i as int) == spec_skip_ws(s@, k as int),
        decreases s.len() - k,
    {
        k = k + 1;
    }
    k
}

fn digits_end(s: &Vec<u8>, i: usize) -> (r: usize)
    requires
        i <= s.len(),
    ensures
        r as int == spec_digits_end(s@, i as int),
        i <= r <= s.len(),
        forall|k: int| i <= k < r ==> is_digit(s@[k]),
{
    let mut k: usize = i;
    while k < s.len() && digit_byte(s[k])
        invariant
            i <= k <= s.len(),
            spec_digits_end(s@, i as int) == spec_digits_end(s@, k as int),
            forall|m: int| i <= m < k ==> is_digit(s@[m]),
        decreases s.len() - k,
    {
        k = k + 1;
    }
    proof {
        lemma_digits_end_ge(s@, k as int);
    }
    k
}

proof fn lemma_digits_end_ge(s: Seq<u8>, i: int)
    ensures
        spec_digits_end(s, i) >= i,
    decreases s.len() - i,
{
    if 0 <= i < s.len() && is_digit(s[i]) {
        lemma_digits_end_ge(s, i + 1);
    }
}

fn digits_val(s: &Vec<u8>, i: usize, j: usize) -> (r: u64)
    requires
        i <= j <= s.len(),
        j - i <= 19,
        forall|k: int| i <= k < j ==> is_digit(s@[k]),
    ensures
        r as nat == spec_digits_val(s@, i as int, j as int),
{
    let mut acc: u64 = 0;
    let mut k: usize = i;
    while k < j
        invariant
            i <= k <= j <= s.len(),
            j - i <= 19,
            forall|m: int| i <= m < j ==> is_digit(s@[m]),
            acc as nat == spec_digits_val(s@, i as int, k as int),
        decreases j - k,
    {
        proof {
            lemma_digits_val_bound(s@, i as int, k as int);
            lemma_pow10_mono((k - i) as nat, 18);
            assert(pow10(18) == 1000000000000000000) by {
                reveal_with_fuel(pow10, 19);
            }
        }
        acc = acc * 10 + ((s[k] - 48) as u64);
        k = k + 1;
    }
    acc
}

fn hex_val(b: u8) -> (r: Option<u32>)
    ensures
        r == spec_hex_val(b),
{
    if 48 <= b && b <= 57 {
        Some((b - 48) as u32)
    } else if 97 <= b && b <= 102 {
        Some((b - 87) as u32)
    } else if 65 <= b && b <= 70 {
        Some((b - 55) as u32)
    } else {
        None
    }
}

fn hex4(s: &Vec<u8>, i: usize) -> (r: Option<u32>)
    requires
        i <= s.len(),
    ensures
        r == spec_hex4(s@, i as int),
        r matches Some(c) ==> c < 0x10000,
{
    if s.len() - i >= 4 {
        match (hex_val(s[i]), hex_val(s[i + 1]), hex_val(s[i + 2]), hex_val(s[i + 3])) {
            (Some(a), Some(b), Some(c), Some(d)) => Some(a * 0x1000 + b * 0x100 + c * 0x10 + d),
            _ => None,
        }
    } else {
        None
    }
}

fn utf8_encode(c: u32) -> (r: Vec<u8>)
    requires
        c < 0x110000,
    ensures
        r@ == spec_utf8_encode(c),
{
    let mut out: Vec<u8> = Vec::new();
    if c < 0x80 {
        out.push(c as u8);
        proof {
            assert(out@ =~= spec_utf8_encode(c));
        }
    } else if c < 0x800 {
        out.push((0xC0 + c / 0x40) as u8);
        out.push((0x80 + c % 0x40) as u8);
        proof {
            assert(out@ =~= spec_utf8_encode(c));
        }
    } else if c < 0x10000 {
        out.push((0xE0 + c / 0x1000) as u8);
        out.push((0x80 + (c / 0x40) % 0x40) as u8);
        out.push((0x80 + c % 0x40) as u8);
        proof {
            assert(out@ =~= spec_utf8_encode(c));
        }
    } else {
        out.push((0xF0 + c / 0x40000) as u8);
        out.push((0x80 + (c / 0x1000) % 0x40) as u8);
        out.push((0x80 + (c / 0x40) % 0x40) as u8);
        out.push((0x80 + c % 0x40) as u8);
        proof {
            assert(out@ =~= spec_utf8_encode(c));
        }
    }
    out
}

fn escape(s: &Vec<u8>, i: usize) -> (r: Option<(Vec<u8>, usize)>)
    requires
        i <= s.len(),
    ensures
        match (r, spec_escape(s@, i as int)) {
            (None, None) => true,
            (Some((bytes, e)), Some((sb, se))) => bytes@ == sb && e as int == se && i < e
                <= s.len(),
            _ => false,
        },
{
    if i >= s.len() {
        return None;
    }
    let b = s[i];
    if b == 34 || b == 92 || b == 47 {
        let mut out: Vec<u8> = Vec::new();
        out.push(b);
        proof {
            assert(out@ =~= seq![b]);
        }
        return Some((out, i + 1));
    }
    if b == 98 || b == 102 || b == 110 || b == 114 || b == 116 {
        let decoded: u8 = if b == 98 {
            8
        } else if b == 102 {
            12
        } else if b == 110 {
            10
        } else if b == 114 {
            13
        } else {
            9
        };
        let mut out: Vec<u8> = Vec::new();
        out.push(decoded);
        proof {
            assert(out@ =~= seq![decoded]);
        }
        return Some((out, i + 1));
    }
    if b == 117 {
        match hex4(s, i + 1) {
            None => {
                return None;
            },
            Some(c) => {
                if 0xD800 <= c && c < 0xDC00 {
                    if s.len() - i >= 7 && s[i + 5] == 92 && s[i + 6] == 117 {
                        match hex4(s, i + 7) {
                            None => {
                                return None;
                            },
                            Some(lo) => {
                                if 0xDC00 <= lo && lo < 0xE000 {
                                    let scalar = 0x10000 + (c - 0xD800) * 0x400 + (lo - 0xDC00);
                                    return Some((utf8_encode(scalar), i + 11));
                                } else {
                                    return None;
                                }
                            },
                        }
                    } else {
                        return None;
                    }
                } else if 0xDC00 <= c && c < 0xE000 {
                    return None;
                } else {
                    return Some((utf8_encode(c), i + 5));
                }
            },
        }
    }
    None
}

fn string_body(s: &Vec<u8>, i: usize) -> (r: Option<(Vec<u8>, usize)>)
    requires
        i <= s.len(),
    ensures
        match (r, spec_string_body(s@, i as int)) {
            (None, None) => true,
            (Some((c, e)), Some((sc, se))) => c@ == sc && e as int == se && i < e <= s.len(),
            _ => false,
        },
{
    let mut out: Vec<u8> = Vec::new();
    let mut cur: usize = i;
    loop
        invariant
            i <= cur <= s.len(),
            match spec_string_body(s@, i as int) {
                None => spec_string_body(s@, cur as int) is None,
                Some((sc, se)) => spec_string_body(s@, cur as int) matches Some((c2, e2)) && sc
                    == out@ + c2 && se == e2,
            },
        decreases s.len() - cur,
    {
        if cur >= s.len() {
            return None;
        }
        let b = s[cur];
        if b == 34 {
            proof {
                assert(out@ + Seq::<u8>::empty() =~= out@);
            }
            return Some((out, cur + 1));
        }
        if b == 92 {
            match escape(s, cur + 1) {
                None => {
                    return None;
                },
                Some((mut bytes, e)) => {
                    let ghost pre = out@;
                    let ghost bs = bytes@;
                    out.append(&mut bytes);
                    proof {
                        assert(out@ == pre + bs);
                        if let Some((c3, e3)) = spec_string_body(s@, e as int) {
                            assert(pre + (bs + c3) =~= (pre + bs) + c3);
                        }
                    }
                    cur = e;
                },
            }
        } else if b < 0x20 {
            return None;
        } else {
            let ghost pre = out@;
            out.push(b);
            proof {
                assert(out@ =~= pre + seq![b]);
                if let Some((c3, e3)) = spec_string_body(s@, cur + 1) {
                    assert(pre + (seq![b] + c3) =~= (pre + seq![b]) + c3);
                }
            }
            cur = cur + 1;
        }
    }
}

fn number(s: &Vec<u8>, i: usize) -> (r: Option<(Json, usize)>)
    requires
        i <= s.len(),
    ensures
        pv_match(r, spec_number(s@, i as int)),
        r matches Some((j, e)) ==> i <= e <= s.len(),
{
    let di: usize = if i < s.len() && s[i] == 45 {
        i + 1
    } else {
        i
    };
    if !(di < s.len() && digit_byte(s[di])) {
        return None;
    }
    let de = digits_end(s, di);
    let has_frac = de < s.len() && s[de] == 46;
    if has_frac && !(de + 1 < s.len() && digit_byte(s[de + 1])) {
        return None;
    }
    let fe: usize = if has_frac {
        digits_end(s, de + 1)
    } else {
        de
    };
    let has_exp = fe < s.len() && (s[fe] == 101 || s[fe] == 69);
    let si: usize = if has_exp {
        if fe + 1 < s.len() && (s[fe + 1] == 43 || s[fe + 1] == 45) {
            fe + 2
        } else {
            fe + 1
        }
    } else {
        fe
    };
    if has_exp && !(si < s.len() && digit_byte(s[si])) {
        return None;
    }
    let ee: usize = if has_exp {
        digits_end(s, si)
    } else {
        fe
    };
    if di > i || has_frac || has_exp || de - di > 19 {
        Some((Json::NumOther, ee))
    } else {
        Some((Json::Int(digits_val(s, di, de)), ee))
    }
}

/// Reads one JSON value starting at `i`, whitespace allowed before it.
pub fn parse_value(s: &Vec<u8>, i: usize, fuel: usize) -> (r: Option<(Json, usize)>)
    requires
        i <= s.len(),
    ensures
        pv_match(r, spec_parse_value(s@, i as int, fuel as nat)),
        r matches Some((j, e)) ==> e <= s.len(),
    decreases fuel,
{
    if fuel == 0 {
        return None;
    }
    let j = skip_ws(s, i);
    if j >= s.len() {
        return None;
    }
    let b = s[j];
    if b == 110 {
        if s.len() - j >= 4 && s[j + 1] == 117 && s[j + 2] == 108 && s[j + 3] == 108 {
            proof {
                lemma_keyword4(s@, j as int, seq![110u8, 117u8, 108u8, 108u8]);
            }
            Some((Json::Null, j + 4))
        } else {
            proof {
                lemma_keyword4_not(s@, j as int, seq![110u8, 117u8, 108u8, 108u8]);
            }
            None
        }
    } else if b == 116 {
        if s.len() - j >= 4 && s[j + 1] == 114 && s[j + 2] == 117 && s[j + 3] == 101 {
            proof {
                lemma_keyword4(s@, j as int, seq![116u8, 114u8, 117u8, 101u8]);
            }
            Some((Json::Bool(true), j + 4))
        } else {
            proof {
                lemma_keyword4_not(s@, j as int, seq![116u8, 114u8, 117u8, 101u8]);
            }
            None
        }
    } else if b == 102 {
        if s.len() - j >= 5 && s[j + 1] == 97 && s[j + 2] == 108 && s[j + 3] == 115 && s[j + 4]
            == 101 {
            proof {
                lemma_keyword5(s@, j as int, seq![102u8, 97u8, 108u8, 115u8, 101u8]);
            }
            Some((Json::Bool(false), j + 5))
        } else {
            proof {
                lemma_keyword5_not(s@, j as int, seq![102u8, 97u8, 108u8, 115u8, 101u8]);
            }
            None
        }
    } else if b == 34 {
        match string_body(s, j + 1) {
            None => None,
            Some((content, e)) => Some((Json::Str(content), e)),
        }
    } else if b == 91 {
        let k = skip_ws(s, j + 1);
        if k < s.len() && s[k] == 93 {
            let out: Vec<Json> = Vec::new();
            proof {
                assert(jvs(out@) =~= Seq::<JsonV>::empty());
            }
            Some((Json::Arr(out), k + 1))
        } else {
            match parse_items(s, j + 1, fuel - 1) {
                None => None,
                Some((items, e)) => Some((Json::Arr(items), e)),
            }
        }
    } else if b == 123 {
        let k = skip_ws(s, j + 1);
        if k < s.len() && s[k] == 125 {
            let out: Vec<(Vec<u8>, Json)> = Vec::new();
            proof {
                assert(jvm(out@) =~= Seq::<(Seq<u8>, JsonV)>::empty());
            }
            Some((Json::Obj(out), k + 1))
        } else {
            match parse_members(s, j + 1, fuel - 1) {
                None => None,
                Some((members, e)) => Some((Json::Obj(members), e)),
            }
        }
    } else if b == 45 || digit_byte(b) {
        number(s, j)
    } else {
        None
    }
}

proof fn lemma_keyword4(s: Seq<u8>, j: int, kw: Seq<u8>)
    requires
        kw.len() == 4,
        0 <= j,
        j + 4 <= s.len(),
        s[j] == kw[0],
        s[j + 1] == kw[1],
        s[j + 2] == kw[2],
        s[j + 3] == kw[3],
    ensures
        spec_keyword_at(s, j, kw),
{
    assert forall|k: int| 0 <= k < kw.len() implies s[j + k] == kw[k] by {
        if k == 0 {
        } else if k == 1 {
        } else if k == 2 {
        } else {
            assert(k == 3);
        }
    }
}

proof fn lemma_keyword4_not(s: Seq<u8>, j: int, kw: Seq<u8>)
    requires
        kw.len() == 4,
        0 <= j < s.len(),
        !(j + 4 <= s.len() && s[j + 1] == kw[1] && s[j + 2] == kw[2] && s[j + 3] == kw[3]),
    ensures
        !spec_keyword_at(s, j, kw),
{
    if j + 4 <= s.len() {
        if spec_keyword_at(s, j, kw) {
            assert(s[j + 1] == kw[1]);
            assert(s[j + 2] == kw[2]);
            assert(s[j + 3] == kw[3]);
        }
    }
}

proof fn lemma_keyword5(s: Seq<u8>, j: int, kw: Seq<u8>)
    requires
        kw.len() == 5,
        0 <= j,
        j + 5 <= s.len(),
        s[j] == kw[0],
        s[j + 1] == kw[1],
        s[j + 2] == kw[2],
        s[j + 3] == kw[3],
        s[j + 4] == kw[4],
    ensures
        spec_keyword_at(s, j, kw),
{
    assert forall|k: int| 0 <= k < kw.len() implies s[j + k] == kw[k] by {
        if k == 0 {
        } else if k == 1 {
        } else if k == 2 {
        } else if k == 3 {
        } else {
            assert(k == 4);
        }
    }
}

proof fn lemma_keyword5_not(s: Seq<u8>, j: int, kw: Seq<u8>)
    requires
        kw.len() == 5,
        0 <= j < s.len(),
        !(j + 5 <= s.len() && s[j + 1] == kw[1] && s[j + 2] == kw[2] && s[j + 3] == kw[3] && s[j
            + 4] == kw[4]),
    ensures
        !spec_keyword_at(s, j, kw),
{
    if j + 5 <= s.len() {
        if spec_keyword_at(s, j, kw) {
            assert(s[j + 1] == kw[1]);
            assert(s[j + 2] == kw[2]);
            assert(s[j + 3] == kw[3]);
            assert(s[j + 4] == kw[4]);
        }
    }
}

/// Reads one or more comma-separated array elements and the closing
/// bracket.
pub fn parse_items(s: &Vec<u8>, i: usize, fuel: usize) -> (r: Option<(Vec<Json>, usize)>)
    requires
        i <= s.len(),
    ensures
        pi_match(r, spec_parse_items(s@, i as int, fuel as nat)),
        r matches Some((v, e)) ==> e <= s.len(),
    decreases fuel,
{
    if fuel == 0 {
        return None;
    }
    match parse_value(s, i, fuel - 1) {
        None => None,
        Some((v, e)) => {
            let k = skip_ws(s, e);
            if k >= s.len() {
                return None;
            }
            if s[k] == 93 {
                let mut out: Vec<Json> = Vec::new();
                out.push(v);
                proof {
                    assert(out@.subrange(1, out@.len() as int) =~= Seq::<Json>::empty());
                    assert(jvs(Seq::<Json>::empty()) =~= Seq::<JsonV>::empty());
                    assert(jvs(out@) =~= seq![jv(v)]);
                }
                Some((out, k + 1))
            } else if s[k] == 44 {
                match parse_items(s, k + 1, fuel - 1) {
                    None => None,
                    Some((rest, re)) => {
                        let ghost rest0 = rest@;
                        let mut out = rest;
                        out.insert(0, v);
                        proof {
                            assert(out@.subrange(1, out@.len() as int) =~= rest0);
                            assert(jvs(out@) =~= seq![jv(v)] + jvs(rest0));
                        }
                        Some((out, re))
                    },
                }
            } else {
                None
            }
        },
    }
}

/// Reads one or more `"key": value` members and the closing brace.
pub fn parse_members(s: &Vec<u8>, i: usize, fuel: usize) -> (r: Option<
    (Vec<(Vec<u8>, Json)>, usize),
>)
    requires
        i <= s.len(),
    ensures
        pm_match(r, spec_parse_members(s@, i as int, fuel as nat)),
        r matches Some((m, e)) ==> e <= s.len(),
    decreases fuel,
{
    if fuel == 0 {
        return None;
    }
    let j = skip_ws(s, i);
    if !(j < s.len() && s[j] == 34) {
        return None;
    }
    match string_body(s, j + 1) {
        None => None,
        Some((key, ke)) => {
            let c = skip_ws(s, ke);
            if !(c < s.len() && s[c] == 58) {
                return None;
            }
            match parse_value(s, c + 1, fuel - 1) {
                None => None,
                Some((v, e)) => {
                    let k = skip_ws(s, e);
                    if k >= s.len() {
                        return None;
                    }
                    if s[k] == 125 {
                        let ghost keyv = key@;
                        let mut out: Vec<(Vec<u8>, Json)> = Vec::new();
                        out.push((key, v));
                        proof {
                            assert(out@.subrange(1, out@.len() as int) =~= Seq::<
                                (Vec<u8>, Json),
                            >::empty());
                            assert(jvm(Seq::<(Vec<u8>, Json)>::empty()) =~= Seq::<
                                (Seq<u8>, JsonV),
                            >::empty());
                            assert(jvm(out@) =~= seq![(keyv, jv(v))]);
                        }
                        Some((out, k + 1))
                    } else if s[k] == 44 {
                        match parse_members(s, k + 1, fuel - 1) {
                            None => None,
                            Some((rest, re)) => {
                                let ghost keyv = key@;
                                let ghost rest0 = rest@;
                                let mut out = rest;
                                out.insert(0, (key, v));
                                proof {
                                    assert(out@.subrange(1, out@.len() as int) =~= rest0);
                                    assert(jvm(out@) =~= seq![(keyv, jv(v))] + jvm(rest0));
                                }
                                Some((out, re))
                            },
                        }
                    } else {
                        None
                    }
                },
            }
        },
    }
}

/// Decodes a whole response body: one JSON document, or `None` when the
/// bytes are not one.
pub fn parse_json(b: &Vec<u8>) -> (r: Option<Json>)
    ensures
        match (r, spec_parse_json(b@)) {
            (None, None) => true,
            (Some(j), Some(v)) => jv(j) == v,
            _ => false,
        },
{
    match parse_value(b, 0, b.len()) {
        None => None,
        Some((j, e)) => {
            let k = skip_ws(b, e);
            if k == b.len() {
                Some(j)
            } else {
                None
            }
        },
    }
}

/// `jvs` maps elementwise.
pub proof fn lemma_jvs_props(v: Seq<Json>)
    ensures
        jvs(v).len() == v.len(),
        forall|k: int| 0 <= k < v.len() ==> jvs(v)[k] == jv(v[k]),
    decreases v.len(),
{
    if v.len() > 0 {
        lemma_jvs_props(v.subrange(1, v.len() as int));
    }
}

/// `jvm` maps elementwise.
pub proof fn lemma_jvm_props(m: Seq<(Vec<u8>, Json)>)
    ensures
        jvm(m).len() == m.len(),
        forall|k: int|
            0 <= k < m.len() ==> jvm(m)[k] == (m[k].0@, jv(m[k].1)),
    decreases m.len(),
{
    if m.len() > 0 {
        lemma_jvm_props(m.subrange(1, m.len() as int));
    }
}

/// The value under the first member named `key`.
pub open spec fn spec_members_get(m: Seq<(Seq<u8>, JsonV)>, key: Seq<u8>) -> Option<JsonV>
    decreases m.len(),
{
    if m.len() == 0 {
        None
    } else if m[0].0 == key {
        Some(m[0].1)
    } else {
        spec_members_get(m.subrange(1, m.len() as int), key)
    }
}

/// The value under `key` when `v` is an object holding one.
pub open spec fn spec_obj_get(v: JsonV, key: Seq<u8>) -> Option<JsonV> {
    match v {
        JsonV::Obj(m) => spec_members_get(m, key),
        _ => None,
    }
}

pub fn bytes_eq(a: &Vec<u8>, b: &[u8]) -> (r: bool)
    ensures
        r == (a@ == b@),
{
    if a.len() != b.len() {
        return false;
    }
    let mut k: usize = 0;
    while k < a.len()
        invariant
            0 <= k <= a.len(),
            a@.len() == b@.len(),
            forall|m: int| 0 <= m < k ==> a@[m] == b@[m],
        decreases a.len() - k,
    {
        if a[k] != b[k] {
            return false;
        }
        k = k + 1;
    }
    proof {
        assert(a@ =~= b@);
    }
    true
}

/// Looks a member up in an object, by key.  Under a duplicated key the
/// first member wins (a structured decoder that builds a map would keep
/// the last; the catalog sends no duplicate keys, so nothing observes
/// the difference).
pub fn obj_get<'a>(j: &'a Json, key: &[u8]) -> (r: Option<&'a Json>)
    ensures
        match r {
            Some(x) => spec_obj_get(jv(*j), key@) == Some(jv(*x)),
            None => spec_obj_get(jv(*j), key@) is None,
        },
{
    match j {
        Json::Obj(members) => {
            proof {
                lemma_jvm_props(members@);
                assert(jv(*j) == JsonV::Obj(jvm(members@)));
            }
            let ghost whole = jvm(members@);
            proof {
                assert(whole.subrange(0, whole.len() as int) =~= whole);
            }
            let mut k: usize = 0;
            while k < members.len()
                invariant
                    0 <= k <= members@.len(),
                    whole == jvm(members@),
                    jv(*j) == JsonV::Obj(whole),
                    whole.len() == members@.len(),
                    forall|m: int|
                        0 <= m < members@.len() ==> whole[m] == (
                            members@[m].0@,
                            jv(members@[m].1),
                        ),
                    spec_members_get(whole, key@) == spec_members_get(
                        whole.subrange(k as int, whole.len() as int),
                        key@,
                    ),
                decreases members@.len() - k,
            {
                let ghost tail = whole.subrange(k as int, whole.len() as int);
                proof {
                    assert(tail[0] == whole[k as int]);
                    assert(tail.subrange(1, tail.len() as int) =~= whole.subrange(
                        k as int + 1,
                        whole.len() as int,
                    ));
                }
                if bytes_eq(&members[k].0, key) {
                    proof {
                        assert(tail[0].0 == key@);
                        assert(spec_members_get(tail, key@) == Some(jv(members@[k as int].1)));
                        assert(spec_obj_get(jv(*j), key@) == spec_members_get(whole, key@));
                        assert(spec_members_get(whole, key@) == Some(jv(members@[k as int].1)));
                    }
                    let found = &members[k].1;
                    proof {
                        assert(*found == members@[k as int].1);
                    }
                    return Some(found);
                }
                proof {
                    assert(tail[0].0 != key@);
                    assert(spec_members_get(tail, key@) == spec_members_get(
                        tail.subrange(1, tail.len() as int),
                        key@,
                    ));
                }
                k = k + 1;
            }
            proof {
                assert(whole.subrange(k as int, whole.len() as int) =~= Seq::<
                    (Seq<u8>, JsonV),
                >::empty());
            }
            None
        },
        _ => None,
    }
}

} // verus!
