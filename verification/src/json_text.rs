//! The JSON wire grammar: a reader from text to [`JsonValue`] and a
//! writer back to text.
//!
//! The grammar is stated once, as spec functions over `Seq<char>`; each
//! executable function is proved to return exactly what the spec
//! functions say.  The reader follows the JSON grammar: optional
//! whitespace around values, objects and arrays with comma-separated
//! members, strings with the usual escapes (including `\uXXXX` with
//! surrogate pairs), and numbers with optional sign, fraction and
//! exponent, kept as their literal text.  Parsing needs a recursion
//! budget to be well-founded; a budget of the text's length plus one is
//! always enough, since every step of the budget stands for at least one
//! consumed character, and the top-level entry points fix exactly that
//! budget.

use vstd::prelude::*;

use crate::json::{is_digit, JsonNumber, JsonV, JsonValue};
use crate::text::{char_from_u32, str_to_chars, string_from_chars};
use vstd::string::StrSliceExecFns;

verus! {

/// Whether a character is JSON whitespace.
pub open spec fn is_ws(c: char) -> bool {
    c == ' ' || c == '\t' || c == '\n' || c == '\r'
}

/// The first position at or after `i` that does not hold whitespace.
pub open spec fn skip_ws(s: Seq<char>, i: int) -> int
    decreases s.len() - i,
{
    if 0 <= i < s.len() && is_ws(s[i]) {
        skip_ws(s, i + 1)
    } else {
        i
    }
}

/// The value of a hexadecimal digit, or a negative value for any other
/// character.
pub open spec fn hex_val(c: char) -> int {
    if '0' <= c <= '9' {
        c as int - '0' as int
    } else if 'a' <= c <= 'f' {
        c as int - 'a' as int + 10
    } else if 'A' <= c <= 'F' {
        c as int - 'A' as int + 10
    } else {
        -1
    }
}

/// The value of the four hexadecimal digits at `i`, or a negative value
/// where they are missing or malformed.
pub open spec fn hex4(s: Seq<char>, i: int) -> int {
    if 0 <= i && i + 4 <= s.len() && hex_val(s[i]) >= 0 && hex_val(s[i + 1]) >= 0
        && hex_val(s[i + 2]) >= 0 && hex_val(s[i + 3]) >= 0 {
        ((hex_val(s[i]) * 16 + hex_val(s[i + 1])) * 16 + hex_val(s[i + 2])) * 16
            + hex_val(s[i + 3])
    } else {
        -1
    }
}

/// What a string escape at `i` (the position after the backslash)
/// denotes: the character it stands for and the position after the
/// escape.  A `\u` escape with a high surrogate must be followed by a
/// `\u` escape with a low surrogate; the pair denotes one character.
pub open spec fn p_escape(s: Seq<char>, i: int) -> Option<(char, int)> {
    if !(0 <= i < s.len()) {
        None
    } else {
        let c = s[i];
        if c == '"' { Some(('"', i + 1)) }
        else if c == '\\' { Some(('\\', i + 1)) }
        else if c == '/' { Some(('/', i + 1)) }
        else if c == 'b' { Some(('\u{8}', i + 1)) }
        else if c == 'f' { Some(('\u{c}', i + 1)) }
        else if c == 'n' { Some(('\n', i + 1)) }
        else if c == 'r' { Some(('\r', i + 1)) }
        else if c == 't' { Some(('\t', i + 1)) }
        else if c == 'u' {
            let h = hex4(s, i + 1);
            if h < 0 {
                None
            } else if 0xD800 <= h < 0xDC00 {
                if i + 6 < s.len() && s[i + 5] == '\\' && s[i + 6] == 'u' {
                    let l = hex4(s, i + 7);
                    if 0xDC00 <= l < 0xE000 {
                        Some(((0x10000 + (h - 0xD800) * 0x400 + (l - 0xDC00)) as char, i + 11))
                    } else {
                        None
                    }
                } else {
                    None
                }
            } else if 0xDC00 <= h < 0xE000 {
                None
            } else {
                Some((h as char, i + 5))
            }
        }
        else { None }
    }
}

/// What a string body starting at `i` (the position after the opening
/// quote) denotes: the unescaped characters, and the position after the
/// closing quote.  An unescaped control character, a bad escape, or a
/// missing closing quote denotes nothing.
pub open spec fn p_string(s: Seq<char>, i: int) -> Option<(Seq<char>, int)>
    decreases s.len() - i,
{
    if !(0 <= i < s.len()) {
        None
    } else {
        let c = s[i];
        if c == '"' {
            Some((Seq::empty(), i + 1))
        } else if c == '\\' {
            match p_escape(s, i + 1) {
                Some((e, j)) => if i + 1 < j <= s.len() {
                    match p_string(s, j) {
                        Some((rest, k)) => Some((seq![e] + rest, k)),
                        None => None,
                    }
                } else {
                    None
                },
                None => None,
            }
        } else if (c as int) < 32 {
            None
        } else {
            match p_string(s, i + 1) {
                Some((rest, k)) => Some((seq![c] + rest, k)),
                None => None,
            }
        }
    }
}

/// The first position at or after `i` that does not hold a decimal digit.
pub open spec fn skip_digits(s: Seq<char>, i: int) -> int
    decreases s.len() - i,
{
    if 0 <= i < s.len() && is_digit(s[i]) {
        skip_digits(s, i + 1)
    } else {
        i
    }
}

/// The position reached from a position inside the text never moves
/// backwards nor past the end.
pub proof fn lemma_skip_digits_bounds(s: Seq<char>, i: int)
    requires
        0 <= i <= s.len(),
    ensures
        i <= skip_digits(s, i) <= s.len(),
    decreases s.len() - i,
{
    if i < s.len() && is_digit(s[i]) {
        lemma_skip_digits_bounds(s, i + 1);
    }
}

/// Where the fractional part starting at `b` ends: at `b` when there is
/// none, after its digits when it is well formed, or nowhere (a negative
/// position) when a point stands without digits.
pub open spec fn num_frac_end(s: Seq<char>, b: int) -> int {
    if b < s.len() && s[b] == '.' {
        if b + 1 < s.len() && is_digit(s[b + 1]) {
            skip_digits(s, b + 1)
        } else {
            -1
        }
    } else {
        b
    }
}

/// Where the exponent part starting at `c` ends: at `c` when there is
/// none, after its digits when it is well formed, or nowhere (a negative
/// position) when a marker stands without digits.
pub open spec fn num_exp_end(s: Seq<char>, c: int) -> int {
    if c < s.len() && (s[c] == 'e' || s[c] == 'E') {
        let e1 = if c + 1 < s.len() && (s[c + 1] == '+' || s[c + 1] == '-') {
            c + 2
        } else {
            c + 1
        };
        if e1 < s.len() && is_digit(s[e1]) {
            skip_digits(s, e1)
        } else {
            -1
        }
    } else {
        c
    }
}

/// What a number starting at `i` denotes: its literal text and the
/// position after it.  The grammar is JSON's: an optional minus sign, an
/// integer part without leading zeros, an optional fraction, an optional
/// exponent.
pub open spec fn p_number(s: Seq<char>, i: int) -> Option<(Seq<char>, int)> {
    let a = if 0 <= i < s.len() && s[i] == '-' { i + 1 } else { i };
    if !(0 <= a < s.len() && is_digit(s[a])) {
        None
    } else {
        let b = if s[a] == '0' { a + 1 } else { skip_digits(s, a) };
        let c = num_frac_end(s, b);
        if c < 0 {
            None
        } else {
            let d = num_exp_end(s, c);
            if d < 0 {
                None
            } else {
                Some((s.subrange(i, d), d))
            }
        }
    }
}

/// What a value starting at `i` denotes, under a recursion budget:
/// the parsed value and the position after it.
pub open spec fn p_value(s: Seq<char>, i: int, fuel: nat) -> Option<(JsonV, int)>
    decreases fuel, 2int,
{
    if fuel == 0 {
        None
    } else if !(0 <= i < s.len()) {
        None
    } else {
        let c = s[i];
        if c == '{' {
            p_object_body(s, i + 1, (fuel - 1) as nat)
        } else if c == '[' {
            p_array_body(s, i + 1, (fuel - 1) as nat)
        } else if c == '"' {
            match p_string(s, i + 1) {
                Some((t, j)) => Some((JsonV::Str(t), j)),
                None => None,
            }
        } else if c == 't' {
            if i + 4 <= s.len() && s[i + 1] == 'r' && s[i + 2] == 'u' && s[i + 3] == 'e' {
                Some((JsonV::Bool(true), i + 4))
            } else {
                None
            }
        } else if c == 'f' {
            if i + 5 <= s.len() && s[i + 1] == 'a' && s[i + 2] == 'l' && s[i + 3] == 's'
                && s[i + 4] == 'e' {
                Some((JsonV::Bool(false), i + 5))
            } else {
                None
            }
        } else if c == 'n' {
            if i + 4 <= s.len() && s[i + 1] == 'u' && s[i + 2] == 'l' && s[i + 3] == 'l' {
                Some((JsonV::Null, i + 4))
            } else {
                None
            }
        } else if c == '-' || is_digit(c) {
            match p_number(s, i) {
                Some((t, j)) => Some((JsonV::Num(t), j)),
                None => None,
            }
        } else {
            None
        }
    }
}

/// What the inside of an array denotes, from the position after the
/// opening bracket: the array and the position after the closing
/// bracket.
pub open spec fn p_array_body(s: Seq<char>, i: int, fuel: nat) -> Option<(JsonV, int)>
    decreases fuel, 1int,
{
    let j = skip_ws(s, i);
    if j < s.len() && s[j] == ']' {
        Some((JsonV::Arr(Seq::empty()), j + 1))
    } else {
        p_array_items(s, i, fuel, Seq::empty())
    }
}

/// What the remaining items of an array denote, the items parsed so far
/// standing in `acc`.
pub open spec fn p_array_items(s: Seq<char>, i: int, fuel: nat, acc: Seq<JsonV>) -> Option<
    (JsonV, int),
>
    decreases fuel, 0int,
{
    if fuel == 0 {
        None
    } else {
        let j = skip_ws(s, i);
        match p_value(s, j, (fuel - 1) as nat) {
            Some((v, k)) => {
                let m = skip_ws(s, k);
                if m < s.len() && s[m] == ',' {
                    p_array_items(s, m + 1, (fuel - 1) as nat, acc.push(v))
                } else if m < s.len() && s[m] == ']' {
                    Some((JsonV::Arr(acc.push(v)), m + 1))
                } else {
                    None
                }
            }
            None => None,
        }
    }
}

/// What the inside of an object denotes, from the position after the
/// opening brace: the object and the position after the closing brace.
pub open spec fn p_object_body(s: Seq<char>, i: int, fuel: nat) -> Option<(JsonV, int)>
    decreases fuel, 1int,
{
    let j = skip_ws(s, i);
    if j < s.len() && s[j] == '}' {
        Some((JsonV::Obj(Seq::empty()), j + 1))
    } else {
        p_object_members(s, i, fuel, Seq::empty())
    }
}

/// What the remaining members of an object denote, the members parsed so
/// far standing in `acc`.
pub open spec fn p_object_members(
    s: Seq<char>,
    i: int,
    fuel: nat,
    acc: Seq<(Seq<char>, JsonV)>,
) -> Option<(JsonV, int)>
    decreases fuel, 0int,
{
    if fuel == 0 {
        None
    } else {
        let j = skip_ws(s, i);
        if j < s.len() && s[j] == '"' {
            match p_string(s, j + 1) {
                Some((key, k)) => {
                    let m = skip_ws(s, k);
                    if m < s.len() && s[m] == ':' {
                        match p_value(s, skip_ws(s, m + 1), (fuel - 1) as nat) {
                            Some((v, p)) => {
                                let q = skip_ws(s, p);
                                if q < s.len() && s[q] == ',' {
                                    p_object_members(s, q + 1, (fuel - 1) as nat, acc.push((key, v)))
                                } else if q < s.len() && s[q] == '}' {
                                    Some((JsonV::Obj(acc.push((key, v))), q + 1))
                                } else {
                                    None
                                }
                            }
                            None => None,
                        }
                    } else {
                        None
                    }
                }
                None => None,
            }
        } else {
            None
        }
    }
}

/// The recursion budget that the entry points hand the grammar: always
/// enough, since each step of it stands for a distinct consumed
/// character.
pub open spec fn parse_fuel(s: Seq<char>) -> nat {
    s.len() + 1
}

/// What a whole text denotes: one value, with nothing but whitespace
/// around it.
pub open spec fn json_doc(s: Seq<char>) -> Option<JsonV> {
    match p_value(s, skip_ws(s, 0), parse_fuel(s)) {
        Some((v, j)) => if skip_ws(s, j) == s.len() {
            Some(v)
        } else {
            None
        },
        None => None,
    }
}

/// Skips whitespace.
fn x_skip_ws(t: &Vec<char>, i: usize) -> (j: usize)
    requires
        i <= t@.len(),
    ensures
        j as int == skip_ws(t@, i as int),
        i <= j <= t@.len(),
{
    let mut j = i;
    while j < t.len() && (t[j] == ' ' || t[j] == '\t' || t[j] == '\n' || t[j] == '\r')
        invariant
            i <= j <= t@.len(),
            skip_ws(t@, i as int) == skip_ws(t@, j as int),
        decreases t@.len() - j,
    {
        j += 1;
    }
    j
}

/// Skips decimal digits.
fn x_skip_digits(t: &Vec<char>, i: usize) -> (j: usize)
    requires
        i <= t@.len(),
    ensures
        j as int == skip_digits(t@, i as int),
        i <= j <= t@.len(),
{
    let mut j = i;
    while j < t.len() && '0' <= t[j] && t[j] <= '9'
        invariant
            i <= j <= t@.len(),
            skip_digits(t@, i as int) == skip_digits(t@, j as int),
        decreases t@.len() - j,
    {
        j += 1;
    }
    j
}

/// The value of a hexadecimal digit, or a negative value.
fn x_hex_val(c: char) -> (r: i32)
    ensures
        r as int == hex_val(c),
{
    if '0' <= c && c <= '9' {
        (c as u32 as i32) - 48
    } else if 'a' <= c && c <= 'f' {
        (c as u32 as i32) - 97 + 10
    } else if 'A' <= c && c <= 'F' {
        (c as u32 as i32) - 65 + 10
    } else {
        -1
    }
}

/// The value of the four hexadecimal digits at `i`, where they stand.
fn x_hex4(t: &Vec<char>, i: usize) -> (r: Option<u32>)
    requires
        i <= t@.len(),
    ensures
        match r {
            Some(h) => hex4(t@, i as int) == h as int && h < 0x10000,
            None => hex4(t@, i as int) < 0,
        },
{
    if t.len() - i < 4 {
        return None;
    }
    let v0 = x_hex_val(t[i]);
    let v1 = x_hex_val(t[i + 1]);
    let v2 = x_hex_val(t[i + 2]);
    let v3 = x_hex_val(t[i + 3]);
    if v0 < 0 || v1 < 0 || v2 < 0 || v3 < 0 {
        return None;
    }
    Some((((v0 as u32 * 16 + v1 as u32) * 16 + v2 as u32) * 16 + v3 as u32))
}

/// Reads a string escape at `i`, the position after the backslash.
fn x_escape(t: &Vec<char>, i: usize) -> (r: Option<(char, usize)>)
    requires
        i <= t@.len(),
    ensures
        match r {
            Some((c, j)) => p_escape(t@, i as int) == Some((c, j as int)) && i < j <= t@.len(),
            None => p_escape(t@, i as int) is None,
        },
{
    if i >= t.len() {
        return None;
    }
    let c = t[i];
    if c == '"' { Some(('"', i + 1)) }
    else if c == '\\' { Some(('\\', i + 1)) }
    else if c == '/' { Some(('/', i + 1)) }
    else if c == 'b' { Some(('\u{8}', i + 1)) }
    else if c == 'f' { Some(('\u{c}', i + 1)) }
    else if c == 'n' { Some(('\n', i + 1)) }
    else if c == 'r' { Some(('\r', i + 1)) }
    else if c == 't' { Some(('\t', i + 1)) }
    else if c == 'u' {
        match x_hex4(t, i + 1) {
            Some(h) => {
                if 0xD800 <= h && h < 0xDC00 {
                    if t.len() - i > 6 && t[i + 5] == '\\' && t[i + 6] == 'u' {
                        match x_hex4(t, i + 7) {
                            Some(l) => {
                                if 0xDC00 <= l && l < 0xE000 {
                                    let code: u32 = 0x10000 + (h - 0xD800) * 0x400 + (l - 0xDC00);
                                    match char_from_u32(code) {
                                        Some(ch) => Some((ch, i + 11)),
                                        None => {
                                            proof {
                                                assert(false);
                                            }
                                            None
                                        }
                                    }
                                } else {
                                    None
                                }
                            }
                            None => None,
                        }
                    } else {
                        None
                    }
                } else if 0xDC00 <= h && h < 0xE000 {
                    None
                } else {
                    match char_from_u32(h) {
                        Some(ch) => Some((ch, i + 5)),
                        None => {
                            proof {
                                assert(false);
                            }
                            None
                        }
                    }
                }
            }
            None => None,
        }
    }
    else { None }
}

/// Reads a string body at `i`, the position after the opening quote,
/// appending the unescaped characters, and returns the position after
/// the closing quote.
fn x_string_into(t: &Vec<char>, i: usize, out: &mut Vec<char>) -> (r: Option<usize>)
    requires
        i <= t@.len(),
    ensures
        match r {
            Some(j) => {
                &&& p_string(t@, i as int) is Some
                &&& p_string(t@, i as int)->Some_0.1 == j as int
                &&& final(out)@ == old(out)@ + p_string(t@, i as int)->Some_0.0
                &&& i < j <= t@.len()
            },
            None => p_string(t@, i as int) is None,
        },
    decreases t@.len() - i,
{
    if i >= t.len() {
        return None;
    }
    let c = t[i];
    if c == '"' {
        proof {
            assert(old(out)@ + Seq::<char>::empty() =~= old(out)@);
        }
        Some(i + 1)
    } else if c == '\\' {
        match x_escape(t, i + 1) {
            Some((e, j)) => {
                out.push(e);
                let ghost mid = out@;
                match x_string_into(t, j, out) {
                    Some(k) => {
                        proof {
                            let rest = p_string(t@, j as int)->Some_0.0;
                            assert(mid =~= old(out)@ + seq![e]);
                            assert((old(out)@ + seq![e]) + rest =~= old(out)@ + (seq![e] + rest));
                        }
                        Some(k)
                    }
                    None => None,
                }
            }
            None => {
                proof {
                    assert(p_string(t@, i as int) is None);
                }
                None
            }
        }
    } else if ' ' > c {
        proof {
            assert((c as int) < 32);
        }
        None
    } else {
        proof {
            assert((c as int) >= 32);
        }
        out.push(c);
        let ghost mid = out@;
        match x_string_into(t, i + 1, out) {
            Some(k) => {
                proof {
                    let rest = p_string(t@, i as int + 1)->Some_0.0;
                    assert(mid =~= old(out)@ + seq![c]);
                    assert((old(out)@ + seq![c]) + rest =~= old(out)@ + (seq![c] + rest));
                }
                Some(k)
            }
            None => {
                proof {
                    assert(p_string(t@, i as int) is None);
                }
                None
            }
        }
    }
}

/// The characters of a range of the text, as a fresh vector.
pub(crate) fn x_copy_range(t: &Vec<char>, a: usize, b: usize) -> (r: Vec<char>)
    requires
        a <= b <= t@.len(),
    ensures
        r@ == t@.subrange(a as int, b as int),
{
    let mut r: Vec<char> = Vec::new();
    let mut i = a;
    while i < b
        invariant
            a <= i <= b <= t@.len(),
            r@ == t@.subrange(a as int, i as int),
        decreases b - i,
    {
        r.push(t[i]);
        proof {
            assert(t@.subrange(a as int, i as int).push(t@[i as int])
                =~= t@.subrange(a as int, i as int + 1));
        }
        i += 1;
    }
    r
}

/// Reads a number at `i` and returns its literal text and the position
/// after it.
fn x_number(t: &Vec<char>, i: usize) -> (r: Option<(Vec<char>, usize)>)
    requires
        i <= t@.len(),
    ensures
        match r {
            Some(p) => p_number(t@, i as int) == Some((p.0@, p.1 as int)) && i < p.1 <= t@.len(),
            None => p_number(t@, i as int) is None,
        },
{
    let a = if i < t.len() && t[i] == '-' {
        i + 1
    } else {
        i
    };
    if !(a < t.len() && '0' <= t[a] && t[a] <= '9') {
        return None;
    }
    let b = if t[a] == '0' {
        a + 1
    } else {
        x_skip_digits(t, a)
    };
    proof {
        if t@[a as int] != '0' {
            lemma_skip_digits_bounds(t@, a as int + 1);
        }
        assert(b > a);
    }
    let c: usize;
    if b < t.len() && t[b] == '.' {
        if b + 1 < t.len() && '0' <= t[b + 1] && t[b + 1] <= '9' {
            c = x_skip_digits(t, b + 1);
        } else {
            return None;
        }
    } else {
        c = b;
    }
    let d: usize;
    if c < t.len() && (t[c] == 'e' || t[c] == 'E') {
        let e1 = if c + 1 < t.len() && (t[c + 1] == '+' || t[c + 1] == '-') {
            c + 2
        } else {
            c + 1
        };
        if e1 < t.len() && '0' <= t[e1] && t[e1] <= '9' {
            d = x_skip_digits(t, e1);
        } else {
            return None;
        }
    } else {
        d = c;
    }
    let txt = x_copy_range(t, i, d);
    Some((txt, d))
}

/// Reads one value at `i`.
fn x_value(t: &Vec<char>, i: usize, fuel: u128) -> (r: Option<(JsonValue, usize)>)
    requires
        i <= t@.len(),
    ensures
        match r {
            Some(p) => p_value(t@, i as int, fuel as nat) == Some((p.0@, p.1 as int))
                && i < p.1 <= t@.len(),
            None => p_value(t@, i as int, fuel as nat) is None,
        },
    decreases fuel, 2int,
{
    if fuel == 0 {
        return None;
    }
    if i >= t.len() {
        return None;
    }
    let c = t[i];
    if c == '{' {
        x_object_body(t, i + 1, fuel - 1)
    } else if c == '[' {
        x_array_body(t, i + 1, fuel - 1)
    } else if c == '"' {
        let mut buf: Vec<char> = Vec::new();
        match x_string_into(t, i + 1, &mut buf) {
            Some(j) => {
                let res = JsonValue::String(string_from_chars(&buf));
                proof {
                    assert(buf@ =~= Seq::<char>::empty() + p_string(t@, i as int + 1)->Some_0.0);
                }
                Some((res, j))
            }
            None => None,
        }
    } else if c == 't' {
        if t.len() - i >= 4 && t[i + 1] == 'r' && t[i + 2] == 'u' && t[i + 3] == 'e' {
            Some((JsonValue::Bool(true), i + 4))
        } else {
            None
        }
    } else if c == 'f' {
        if t.len() - i >= 5 && t[i + 1] == 'a' && t[i + 2] == 'l' && t[i + 3] == 's'
            && t[i + 4] == 'e' {
            Some((JsonValue::Bool(false), i + 5))
        } else {
            None
        }
    } else if c == 'n' {
        if t.len() - i >= 4 && t[i + 1] == 'u' && t[i + 2] == 'l' && t[i + 3] == 'l' {
            Some((JsonValue::Null, i + 4))
        } else {
            None
        }
    } else if c == '-' || ('0' <= c && c <= '9') {
        match x_number(t, i) {
            Some((txt, j)) => {
                let res = JsonValue::Number(JsonNumber { text: string_from_chars(&txt) });
                Some((res, j))
            }
            None => None,
        }
    } else {
        None
    }
}

/// Reads the inside of an array, from the position after the opening
/// bracket.
fn x_array_body(t: &Vec<char>, i: usize, fuel: u128) -> (r: Option<(JsonValue, usize)>)
    requires
        i <= t@.len(),
    ensures
        match r {
            Some(p) => p_array_body(t@, i as int, fuel as nat) == Some((p.0@, p.1 as int))
                && i <= p.1 <= t@.len(),
            None => p_array_body(t@, i as int, fuel as nat) is None,
        },
    decreases fuel, 1int,
{
    let j = x_skip_ws(t, i);
    if j < t.len() && t[j] == ']' {
        let res = JsonValue::Array(Vec::new());
        proof {
            crate::json::lemma_array_model(res->Array_0);
            assert(crate::json::seq_model(Seq::<JsonValue>::empty()) =~= Seq::<JsonV>::empty());
        }
        Some((res, j + 1))
    } else {
        let acc: Vec<JsonValue> = Vec::new();
        proof {
            assert(crate::json::seq_model(acc@) =~= Seq::<JsonV>::empty());
        }
        x_array_items(t, i, fuel, acc)
    }
}

/// Reads the remaining items of an array, the items read so far standing
/// in `acc`.
fn x_array_items(t: &Vec<char>, i: usize, fuel: u128, acc: Vec<JsonValue>) -> (r: Option<
    (JsonValue, usize),
>)
    requires
        i <= t@.len(),
    ensures
        match r {
            Some(p) => p_array_items(t@, i as int, fuel as nat, crate::json::seq_model(acc@))
                == Some((p.0@, p.1 as int)) && i <= p.1 <= t@.len(),
            None => p_array_items(t@, i as int, fuel as nat, crate::json::seq_model(acc@)) is None,
        },
    decreases fuel, 0int,
{
    if fuel == 0 {
        return None;
    }
    let j = x_skip_ws(t, i);
    match x_value(t, j, fuel - 1) {
        Some((v, k)) => {
            let m = x_skip_ws(t, k);
            if m < t.len() && t[m] == ',' {
                let ghost accm = crate::json::seq_model(acc@);
                let ghost vm = v@;
                let mut acc2 = acc;
                acc2.push(v);
                proof {
                    assert(crate::json::seq_model(acc2@) =~= accm.push(vm));
                }
                x_array_items(t, m + 1, fuel - 1, acc2)
            } else if m < t.len() && t[m] == ']' {
                let ghost accm = crate::json::seq_model(acc@);
                let ghost vm = v@;
                let mut acc2 = acc;
                acc2.push(v);
                let res = JsonValue::Array(acc2);
                proof {
                    crate::json::lemma_array_model(res->Array_0);
                    assert(crate::json::seq_model(res->Array_0@) =~= accm.push(vm));
                }
                Some((res, m + 1))
            } else {
                None
            }
        }
        None => None,
    }
}

/// Reads the inside of an object, from the position after the opening
/// brace.
fn x_object_body(t: &Vec<char>, i: usize, fuel: u128) -> (r: Option<(JsonValue, usize)>)
    requires
        i <= t@.len(),
    ensures
        match r {
            Some(p) => p_object_body(t@, i as int, fuel as nat) == Some((p.0@, p.1 as int))
                && i <= p.1 <= t@.len(),
            None => p_object_body(t@, i as int, fuel as nat) is None,
        },
    decreases fuel, 1int,
{
    let j = x_skip_ws(t, i);
    if j < t.len() && t[j] == '}' {
        let res = JsonValue::Object(Vec::new());
        proof {
            crate::json::lemma_object_model(res->Object_0);
            assert(crate::json::pairs_model(Seq::<(String, JsonValue)>::empty())
                =~= Seq::<(Seq<char>, JsonV)>::empty());
        }
        Some((res, j + 1))
    } else {
        let acc: Vec<(String, JsonValue)> = Vec::new();
        proof {
            assert(crate::json::pairs_model(acc@) =~= Seq::<(Seq<char>, JsonV)>::empty());
        }
        x_object_members(t, i, fuel, acc)
    }
}

/// Reads the remaining members of an object, the members read so far
/// standing in `acc`.
fn x_object_members(t: &Vec<char>, i: usize, fuel: u128, acc: Vec<(String, JsonValue)>) -> (r:
    Option<(JsonValue, usize)>)
    requires
        i <= t@.len(),
    ensures
        match r {
            Some(p) => p_object_members(t@, i as int, fuel as nat, crate::json::pairs_model(acc@))
                == Some((p.0@, p.1 as int)) && i <= p.1 <= t@.len(),
            None => p_object_members(t@, i as int, fuel as nat, crate::json::pairs_model(acc@))
                is None,
        },
    decreases fuel, 0int,
{
    if fuel == 0 {
        return None;
    }
    let j = x_skip_ws(t, i);
    if j < t.len() && t[j] == '"' {
        let mut keybuf: Vec<char> = Vec::new();
        match x_string_into(t, j + 1, &mut keybuf) {
            Some(k) => {
                proof {
                    assert(keybuf@ =~= Seq::<char>::empty()
                        + p_string(t@, j as int + 1)->Some_0.0);
                }
                let m = x_skip_ws(t, k);
                if m < t.len() && t[m] == ':' {
                    let w = x_skip_ws(t, m + 1);
                    match x_value(t, w, fuel - 1) {
                        Some((v, p)) => {
                            let q = x_skip_ws(t, p);
                            if q < t.len() && t[q] == ',' {
                                let ghost accm = crate::json::pairs_model(acc@);
                                let ghost vm = v@;
                                let ghost km = keybuf@;
                                let key = string_from_chars(&keybuf);
                                let mut acc2 = acc;
                                acc2.push((key, v));
                                proof {
                                    assert(crate::json::pairs_model(acc2@)
                                        =~= accm.push((km, vm)));
                                }
                                x_object_members(t, q + 1, fuel - 1, acc2)
                            } else if q < t.len() && t[q] == '}' {
                                let ghost accm = crate::json::pairs_model(acc@);
                                let ghost vm = v@;
                                let ghost km = keybuf@;
                                let key = string_from_chars(&keybuf);
                                let mut acc2 = acc;
                                acc2.push((key, v));
                                let res = JsonValue::Object(acc2);
                                proof {
                                    crate::json::lemma_object_model(res->Object_0);
                                    assert(crate::json::pairs_model(res->Object_0@)
                                        =~= accm.push((km, vm)));
                                }
                                Some((res, q + 1))
                            } else {
                                None
                            }
                        }
                        None => None,
                    }
                } else {
                    None
                }
            }
            None => None,
        }
    } else {
        None
    }
}

/// Reads a whole text as one JSON document: one value with nothing but
/// whitespace around it.  The result is exactly what the grammar says
/// the text denotes; a text that denotes nothing yields nothing.
pub fn parse_json_text(s: &str) -> (r: Option<JsonValue>)
    ensures
        match r {
            Some(v) => json_doc(s@) == Some(v@),
            None => json_doc(s@) is None,
        },
{
    let t = str_to_chars(s);
    let start = x_skip_ws(&t, 0);
    let fuel: u128 = t.len() as u128 + 1;
    match x_value(&t, start, fuel) {
        Some((v, j)) => {
            let e = x_skip_ws(&t, j);
            if e == t.len() {
                Some(v)
            } else {
                None
            }
        }
        None => None,
    }
}

/// The hexadecimal digit character for a value below sixteen.
pub open spec fn hexd(d: int) -> char {
    if d == 0 { '0' }
    else if d == 1 { '1' }
    else if d == 2 { '2' }
    else if d == 3 { '3' }
    else if d == 4 { '4' }
    else if d == 5 { '5' }
    else if d == 6 { '6' }
    else if d == 7 { '7' }
    else if d == 8 { '8' }
    else if d == 9 { '9' }
    else if d == 10 { 'a' }
    else if d == 11 { 'b' }
    else if d == 12 { 'c' }
    else if d == 13 { 'd' }
    else if d == 14 { 'e' }
    else { 'f' }
}

/// How one character is written inside a string: itself, a short
/// escape, or a `\u00..` escape for the remaining control characters.
pub open spec fn esc_char(c: char) -> Seq<char> {
    if c == '"' { seq!['\\', '"'] }
    else if c == '\\' { seq!['\\', '\\'] }
    else if c == '\u{8}' { seq!['\\', 'b'] }
    else if c == '\u{c}' { seq!['\\', 'f'] }
    else if c == '\n' { seq!['\\', 'n'] }
    else if c == '\r' { seq!['\\', 'r'] }
    else if c == '\t' { seq!['\\', 't'] }
    else if (c as int) < 32 {
        seq!['\\', 'u', '0', '0', hexd(c as int / 16), hexd(c as int % 16)]
    } else {
        seq![c]
    }
}

/// How a string's characters are written, escaped, between the quotes.
pub open spec fn esc_str(s: Seq<char>) -> Seq<char>
    decreases s.len(),
{
    if s.len() == 0 {
        Seq::empty()
    } else {
        esc_str(s.drop_last()) + esc_char(s.last())
    }
}

/// How a document is written: the compact form, with no whitespace.
pub open spec fn ser(v: JsonV) -> Seq<char>
    decreases v, 0int,
{
    match v {
        JsonV::Null => seq!['n', 'u', 'l', 'l'],
        JsonV::Bool(b) => if b {
            seq!['t', 'r', 'u', 'e']
        } else {
            seq!['f', 'a', 'l', 's', 'e']
        },
        JsonV::Num(t) => t,
        JsonV::Str(t) => seq!['"'] + esc_str(t) + seq!['"'],
        JsonV::Arr(elems) => seq!['['] + ser_items(elems) + seq![']'],
        JsonV::Obj(pairs) => seq!['{'] + ser_members(pairs) + seq!['}'],
    }
}

/// How an array's items are written, comma-separated.
pub open spec fn ser_items(elems: Seq<JsonV>) -> Seq<char>
    decreases elems, 1int,
{
    if elems.len() == 0 {
        Seq::empty()
    } else if elems.len() == 1 {
        ser(elems[0])
    } else {
        ser_items(elems.subrange(0, elems.len() - 1)) + seq![','] + ser(elems.last())
    }
}

/// How an object's members are written, comma-separated, each a quoted
/// name, a colon and a value.
pub open spec fn ser_members(pairs: Seq<(Seq<char>, JsonV)>) -> Seq<char>
    decreases pairs, 1int,
{
    if pairs.len() == 0 {
        Seq::empty()
    } else {
        let last = pairs.last();
        proof {
            assert(decreases_to!(pairs => pairs[pairs.len() - 1]));
            assert(decreases_to!(pairs[pairs.len() - 1] => pairs[pairs.len() - 1].1));
            assert(decreases_to!(pairs => pairs[pairs.len() - 1].1));
        }
        let m = seq!['"'] + esc_str(last.0) + seq!['"', ':'] + ser(pairs[pairs.len() - 1].1);
        if pairs.len() == 1 {
            m
        } else {
            ser_members(pairs.subrange(0, pairs.len() - 1)) + seq![','] + m
        }
    }
}

/// The hexadecimal digit character for a value below sixteen.
fn x_hexd(d: u32) -> (c: char)
    requires
        d < 16,
    ensures
        c == hexd(d as int),
{
    if d == 0 { '0' }
    else if d == 1 { '1' }
    else if d == 2 { '2' }
    else if d == 3 { '3' }
    else if d == 4 { '4' }
    else if d == 5 { '5' }
    else if d == 6 { '6' }
    else if d == 7 { '7' }
    else if d == 8 { '8' }
    else if d == 9 { '9' }
    else if d == 10 { 'a' }
    else if d == 11 { 'b' }
    else if d == 12 { 'c' }
    else if d == 13 { 'd' }
    else if d == 14 { 'e' }
    else { 'f' }
}

/// Appends one character in its escaped written form.
fn x_esc_char_into(c: char, out: &mut Vec<char>)
    ensures
        final(out)@ == old(out)@ + esc_char(c),
{
    if c == '"' {
        out.push('\\');
        out.push('"');
    } else if c == '\\' {
        out.push('\\');
        out.push('\\');
    } else if c == '\u{8}' {
        out.push('\\');
        out.push('b');
    } else if c == '\u{c}' {
        out.push('\\');
        out.push('f');
    } else if c == '\n' {
        out.push('\\');
        out.push('n');
    } else if c == '\r' {
        out.push('\\');
        out.push('r');
    } else if c == '\t' {
        out.push('\\');
        out.push('t');
    } else if ' ' > c {
        out.push('\\');
        out.push('u');
        out.push('0');
        out.push('0');
        out.push(x_hexd(c as u32 / 16));
        out.push(x_hexd(c as u32 % 16));
        proof {
            assert((c as int) < 32);
            assert(c as u32 / 16 == c as int / 16);
            assert(c as u32 % 16 == c as int % 16);
            assert(out@ =~= old(out)@ + esc_char(c));
        }
    } else {
        out.push(c);
        proof {
            assert((c as int) >= 32);
            assert(out@ =~= old(out)@ + esc_char(c));
        }
    }
    proof {
        assert(out@ =~= old(out)@ + esc_char(c));
    }
}

/// Appends a string's characters in their escaped written form.
#[verifier::loop_isolation(false)]
fn x_esc_str_into(s: &str, out: &mut Vec<char>)
    ensures
        final(out)@ == old(out)@ + esc_str(s@),
{
    let n = s.unicode_len();
    let mut i: usize = 0;
    proof {
        assert(esc_str(s@.subrange(0, 0)) =~= Seq::<char>::empty());
        assert(out@ =~= old(out)@ + esc_str(s@.subrange(0, 0)));
    }
    while i < n
        invariant
            i <= n,
            n == s@.len(),
            out@ == old(out)@ + esc_str(s@.subrange(0, i as int)),
        decreases n - i,
    {
        let c = s.get_char(i);
        x_esc_char_into(c, out);
        proof {
            assert(s@.subrange(0, i as int + 1).drop_last() =~= s@.subrange(0, i as int));
            assert(s@.subrange(0, i as int + 1).last() == s@[i as int]);
            assert(out@ =~= old(out)@ + esc_str(s@.subrange(0, i as int + 1)));
        }
        i += 1;
    }
    proof {
        assert(s@.subrange(0, n as int) =~= s@);
    }
}

/// Appends the written form of a document.
#[verifier::loop_isolation(false)]
#[verifier::rlimit(90)]
fn ser_into(v: &JsonValue, out: &mut Vec<char>)
    ensures
        final(out)@ == old(out)@ + ser(v@),
    decreases v,
{
    match v {
        JsonValue::Null => {
            out.push('n');
            out.push('u');
            out.push('l');
            out.push('l');
            proof {
                assert(out@ =~= old(out)@ + ser(v@));
            }
        }
        JsonValue::Bool(b) => {
            if *b {
                out.push('t');
                out.push('r');
                out.push('u');
                out.push('e');
            } else {
                out.push('f');
                out.push('a');
                out.push('l');
                out.push('s');
                out.push('e');
            }
            proof {
                assert(out@ =~= old(out)@ + ser(v@));
            }
        }
        JsonValue::Number(num) => {
            crate::text::push_str_chars(out, num.text.as_str());
        }
        JsonValue::String(s) => {
            out.push('"');
            x_esc_str_into(s.as_str(), out);
            out.push('"');
            proof {
                assert(out@ =~= old(out)@ + ser(v@));
            }
        }
        JsonValue::Array(a) => {
            let ghost sm = crate::json::seq_model(a@);
            proof {
                crate::json::lemma_array_model(*a);
                assert(v@ == JsonV::Arr(sm));
            }
            out.push('[');
            let mut i: usize = 0;
            proof {
                assert(ser_items(sm.take(0)) =~= Seq::<char>::empty());
                assert(out@ =~= old(out)@ + seq!['['] + ser_items(sm.take(0)));
            }
            while i < a.len()
                invariant
                    i <= a@.len(),
                    out@ == old(out)@ + seq!['['] + ser_items(sm.take(i as int)),
                decreases a@.len() - i,
            {
                if i > 0 {
                    out.push(',');
                }
                proof {
                    assert(*v == JsonValue::Array(*a));
                    assert(decreases_to!(*v => v->Array_0));
                    assert(decreases_to!(*a => a@));
                    assert(decreases_to!(a@ => a@[i as int]));
                    assert(decreases_to!(*v => a@[i as int]));
                }
                ser_into(&a[i], out);
                proof {
                    assert(sm[i as int] == a@[i as int]@);
                    if i == 0 {
                        assert(sm.take(1).len() == 1);
                        assert(sm.take(1)[0] == sm[0]);
                        assert(ser_items(sm.take(1)) == ser(sm[0]));
                        assert(out@ =~= old(out)@ + seq!['['] + ser_items(sm.take(1)));
                    } else {
                        assert(sm.take(i as int + 1).subrange(0, i as int) =~= sm.take(i as int));
                        assert(sm.take(i as int + 1).last() == sm[i as int]);
                        assert(ser_items(sm.take(i as int + 1)) == ser_items(sm.take(i as int))
                            + seq![','] + ser(sm[i as int]));
                        assert(out@ =~= old(out)@ + seq!['['] + ser_items(sm.take(i as int + 1)));
                    }
                }
                i += 1;
            }
            out.push(']');
            proof {
                assert(sm.take(a@.len() as int) =~= sm);
                assert(out@ =~= old(out)@ + ser(v@));
            }
        }
        JsonValue::Object(o) => {
            let ghost pm = crate::json::pairs_model(o@);
            proof {
                crate::json::lemma_object_model(*o);
                assert(v@ == JsonV::Obj(pm));
            }
            out.push('{');
            let mut i: usize = 0;
            proof {
                assert(ser_members(pm.take(0)) =~= Seq::<char>::empty());
                assert(out@ =~= old(out)@ + seq!['{'] + ser_members(pm.take(0)));
            }
            while i < o.len()
                invariant
                    i <= o@.len(),
                    out@ == old(out)@ + seq!['{'] + ser_members(pm.take(i as int)),
                decreases o@.len() - i,
            {
                if i > 0 {
                    out.push(',');
                }
                let ghost mid = out@;
                out.push('"');
                x_esc_str_into(o[i].0.as_str(), out);
                out.push('"');
                out.push(':');
                proof {
                    assert(*v == JsonValue::Object(*o));
                    assert(decreases_to!(*v => v->Object_0));
                    assert(decreases_to!(*o => o@));
                    assert(decreases_to!(o@ => o@[i as int]));
                    assert(decreases_to!(o@[i as int] => o@[i as int].1));
                    assert(decreases_to!(*v => o@[i as int].1));
                }
                ser_into(&o[i].1, out);
                proof {
                    assert(pm[i as int] == (o@[i as int].0@, o@[i as int].1@));
                    assert(out@ =~= mid + (seq!['"'] + esc_str(pm[i as int].0)
                        + seq!['"', ':'] + ser(pm[i as int].1)));
                    if i == 0 {
                        assert(pm.take(1).len() == 1);
                        assert(pm.take(1)[0] == pm[0]);
                        assert(ser_members(pm.take(1)) == seq!['"'] + esc_str(pm[0].0)
                            + seq!['"', ':'] + ser(pm[0].1));
                        assert(out@ =~= old(out)@ + seq!['{'] + ser_members(pm.take(1)));
                    } else {
                        assert(pm.take(i as int + 1).subrange(0, i as int) =~= pm.take(i as int));
                        assert(pm.take(i as int + 1).last() == pm[i as int]);
                        assert(ser_members(pm.take(i as int + 1)) == ser_members(pm.take(i as int))
                            + seq![','] + (seq!['"'] + esc_str(pm[i as int].0)
                            + seq!['"', ':'] + ser(pm[i as int].1)));
                        assert(out@ =~= old(out)@ + seq!['{'] + ser_members(pm.take(i as int + 1)));
                    }
                }
                i += 1;
            }
            out.push('}');
            proof {
                assert(pm.take(o@.len() as int) =~= pm);
                assert(out@ =~= old(out)@ + ser(v@));
            }
        }
    }
}

/// Writes a document as JSON text, in the compact form the writer
/// grammar states.
pub fn write_json_text(v: &JsonValue) -> (r: String)
    ensures
        r@ == ser(v@),
{
    let mut out: Vec<char> = Vec::new();
    ser_into(v, &mut out);
    proof {
        assert(Seq::<char>::empty() + ser(v@) =~= ser(v@));
    }
    string_from_chars(&out)
}

} // verus!
