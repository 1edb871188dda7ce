//! The JSON document model.
//!
//! A [`JsonValue`] is an ordinary tree of plain values.  Numbers are kept
//! as their literal text, so the model carries every document exactly as
//! it stands on the wire.  The ghost counterpart [`JsonV`] mirrors the
//! tree over `Seq<char>`, and every contract in the crate speaks in terms
//! of it.

use vstd::prelude::*;

verus! {

/// A JSON number, kept as the literal text that stands on the wire.
///
/// The constructors of this crate only ever produce texts that follow the
/// JSON number grammar; the text is carried verbatim when a document is
/// written back out.
#[derive(Debug)]
pub struct JsonNumber {
    /// The literal text of the number, e.g. `"-12.5e3"`.
    pub text: String,
}

/// A JSON document: the unit of everything this library sends or receives.
#[derive(Debug)]
pub enum JsonValue {
    /// The literal `null`.
    Null,
    /// A boolean.
    Bool(bool),
    /// A number, kept as its literal text.
    Number(JsonNumber),
    /// A string (already unescaped).
    String(String),
    /// An array of documents.
    Array(Vec<JsonValue>),
    /// An object: name/value pairs in document order.  A name may repeat;
    /// lookups take the last binding, as a map built from the pairs would.
    Object(Vec<(String, JsonValue)>),
}

/// The ghost model of a JSON document.
#[verifier::ext_equal]
pub enum JsonV {
    /// The literal `null`.
    Null,
    /// A boolean.
    Bool(bool),
    /// A number: the literal text.
    Num(Seq<char>),
    /// A string.
    Str(Seq<char>),
    /// An array.
    Arr(Seq<JsonV>),
    /// An object: name/value pairs in document order.
    Obj(Seq<(Seq<char>, JsonV)>),
}

impl View for JsonNumber {
    type V = Seq<char>;

    open spec fn view(&self) -> Seq<char> {
        self.text@
    }
}

/// The model of a document tree.
pub open spec fn value_model(v: JsonValue) -> JsonV
    decreases v,
{
    match v {
        JsonValue::Null => JsonV::Null,
        JsonValue::Bool(b) => JsonV::Bool(b),
        JsonValue::Number(n) => JsonV::Num(n.text@),
        JsonValue::String(s) => JsonV::Str(s@),
        JsonValue::Array(a) => JsonV::Arr(
            Seq::new(
                a@.len(),
                |i: int|
                    if 0 <= i < a@.len() {
                        proof {
                            assert(decreases_to!(v => a));
                            assert(decreases_to!(a => a@));
                            assert(decreases_to!(a@ => a@[i]));
                            assert(decreases_to!(v => a@[i]));
                        }
                        value_model(a@[i])
                    } else {
                        JsonV::Null
                    },
            ),
        ),
        JsonValue::Object(o) => JsonV::Obj(
            Seq::new(
                o@.len(),
                |i: int|
                    if 0 <= i < o@.len() {
                        proof {
                            assert(decreases_to!(v => o));
                            assert(decreases_to!(o => o@));
                            assert(decreases_to!(o@ => o@[i]));
                            assert(decreases_to!(o@[i] => o@[i].1));
                            assert(decreases_to!(v => o@[i].1));
                        }
                        (o@[i].0@, value_model(o@[i].1))
                    } else {
                        (Seq::empty(), JsonV::Null)
                    },
            ),
        ),
    }
}

impl View for JsonValue {
    type V = JsonV;

    open spec fn view(&self) -> JsonV {
        value_model(*self)
    }
}

impl Clone for JsonNumber {
    fn clone(&self) -> (res: Self)
        ensures
            res@ == self@,
    {
        JsonNumber { text: self.text.clone() }
    }
}

/// A copy of a document tree, equal to the original in its model.
#[verifier::loop_isolation(false)]
fn clone_value(v: &JsonValue) -> (res: JsonValue)
    ensures
        res@ == v@,
    decreases v,
{
    match v {
        JsonValue::Null => JsonValue::Null,
        JsonValue::Bool(b) => JsonValue::Bool(*b),
        JsonValue::Number(n) => JsonValue::Number(n.clone()),
        JsonValue::String(s) => JsonValue::String(s.clone()),
        JsonValue::Array(a) => {
            let mut out: Vec<JsonValue> = Vec::new();
            let mut i: usize = 0;
            while i < a.len()
                invariant
                    i <= a@.len(),
                    out@.len() == i,
                    forall|k: int| 0 <= k < i ==> out@[k]@ == a@[k]@,
                decreases a@.len() - i,
            {
                proof {
                    assert(*v == JsonValue::Array(*a));
                    assert(decreases_to!(*v => v->Array_0));
                    assert(decreases_to!(*a => a@));
                    assert(decreases_to!(a@ => a@[i as int]));
                    assert(decreases_to!(*v => a@[i as int]));
                }
                out.push(clone_value(&a[i]));
                i += 1;
            }
            let res = JsonValue::Array(out);
            proof {
                assert forall|k: int| 0 <= k < out@.len()
                    implies value_model(out@[k]) == value_model(a@[k]) by {}
                assert(value_model(res)->Arr_0 =~= value_model(*v)->Arr_0);
                assert(res@ =~~= v@);
            }
            res
        }
        JsonValue::Object(o) => {
            let mut out: Vec<(String, JsonValue)> = Vec::new();
            let mut i: usize = 0;
            while i < o.len()
                invariant
                    i <= o@.len(),
                    out@.len() == i,
                    forall|k: int| 0 <= k < i
                        ==> out@[k].0@ == o@[k].0@ && out@[k].1@ == o@[k].1@,
                decreases o@.len() - i,
            {
                proof {
                    assert(*v == JsonValue::Object(*o));
                    assert(decreases_to!(*v => v->Object_0));
                    assert(decreases_to!(*o => o@));
                    assert(decreases_to!(o@ => o@[i as int]));
                    assert(decreases_to!(o@[i as int] => o@[i as int].1));
                    assert(decreases_to!(*v => o@[i as int].1));
                }
                let name = o[i].0.clone();
                let val = clone_value(&o[i].1);
                out.push((name, val));
                i += 1;
            }
            let res = JsonValue::Object(out);
            proof {
                assert forall|k: int| 0 <= k < out@.len()
                    implies out@[k].0@ == o@[k].0@
                        && value_model(out@[k].1) == value_model(o@[k].1) by {}
                assert(value_model(res)->Obj_0 =~= value_model(*v)->Obj_0);
                assert(res@ =~~= v@);
            }
            res
        }
    }
}

impl Clone for JsonValue {
    fn clone(&self) -> (res: Self)
        ensures
            res@ == self@,
    {
        clone_value(self)
    }
}

/// Whether a character is a decimal digit.
pub open spec fn is_digit(c: char) -> bool {
    '0' <= c <= '9'
}

/// The value of a decimal digit.
pub open spec fn digit_val(c: char) -> int {
    c as int - '0' as int
}

/// The decimal digit with the given value.
pub open spec fn digit_char(d: int) -> char {
    if d == 0 { '0' }
    else if d == 1 { '1' }
    else if d == 2 { '2' }
    else if d == 3 { '3' }
    else if d == 4 { '4' }
    else if d == 5 { '5' }
    else if d == 6 { '6' }
    else if d == 7 { '7' }
    else if d == 8 { '8' }
    else { '9' }
}

/// Whether every character of a text is a decimal digit.
pub open spec fn all_digits(s: Seq<char>) -> bool {
    forall|i: int| 0 <= i < s.len() ==> is_digit(#[trigger] s[i])
}

/// The value of a text of decimal digits, most significant first.
pub open spec fn dec_val(s: Seq<char>) -> int
    decreases s.len(),
{
    if s.len() == 0 {
        0
    } else {
        dec_val(s.drop_last()) * 10 + digit_val(s.last())
    }
}

/// The decimal text of a natural number, without leading zeros.
pub open spec fn dec_nat_str(n: nat) -> Seq<char>
    decreases n,
{
    if n < 10 {
        seq![digit_char(n as int)]
    } else {
        dec_nat_str(n / 10) + seq![digit_char(n as int % 10)]
    }
}

/// The decimal text of an integer: a minus sign for a negative value,
/// then the digits of its magnitude.
pub open spec fn dec_int_str(n: int) -> Seq<char> {
    if n < 0 {
        seq!['-'] + dec_nat_str((-n) as nat)
    } else {
        dec_nat_str(n as nat)
    }
}

/// Ten to the given power.
pub open spec fn pow10(k: nat) -> int
    decreases k,
{
    if k == 0 {
        1
    } else {
        10 * pow10((k - 1) as nat)
    }
}

/// A nonzero leading digit puts the value at or above ten to the
/// remaining length.
pub proof fn lemma_dec_val_lower(s: Seq<char>)
    requires
        all_digits(s),
        s.len() > 0,
    ensures
        dec_val(s) >= digit_val(s[0]) * pow10((s.len() - 1) as nat),
    decreases s.len(),
{
    if s.len() == 1 {
        assert(s.drop_last() =~= Seq::<char>::empty());
        assert(dec_val(s.drop_last()) == 0);
        assert(s.last() == s[0]);
        assert(dec_val(s) == digit_val(s[0]));
        assert(pow10(0) == 1);
        assert(digit_val(s[0]) * 1 == digit_val(s[0])) by (nonlinear_arith);
    } else {
        let dl = s.drop_last();
        lemma_dec_val_lower(dl);
        assert(dl[0] == s[0]);
        assert(digit_val(s[0]) * pow10((dl.len() - 1) as nat) * 10
            == digit_val(s[0]) * pow10((s.len() - 1) as nat)) by (nonlinear_arith)
            requires
                pow10((s.len() - 1) as nat) == 10 * pow10((dl.len() - 1) as nat),
                dl.len() == s.len() - 1,
        ;
        assert(dec_val(dl) * 10 >= digit_val(s[0]) * pow10((dl.len() - 1) as nat) * 10)
            by (nonlinear_arith)
            requires
                dec_val(dl) >= digit_val(s[0]) * pow10((dl.len() - 1) as nat),
        ;
        assert(0 <= digit_val(s.last()));
    }
}

/// Powers of ten grow with the exponent.
pub proof fn lemma_pow10_mono(a: nat, b: nat)
    requires
        a <= b,
    ensures
        pow10(a) <= pow10(b),
        pow10(a) >= 1,
    decreases b,
{
    if b > 0 {
        if a == b {
            lemma_pow10_mono((a - 1) as nat, (b - 1) as nat);
        } else {
            lemma_pow10_mono(a, (b - 1) as nat);
        }
    }
}

/// Leading zeros do not change the value of a digit text.
pub proof fn lemma_dec_val_skip_zeros(s: Seq<char>, k: int)
    requires
        0 <= k <= s.len(),
        forall|j: int| 0 <= j < k ==> s[j] == '0',
    ensures
        dec_val(s) == dec_val(s.subrange(k, s.len() as int)),
    decreases s.len(),
{
    if k == 0 {
        assert(s.subrange(0, s.len() as int) =~= s);
    } else if k == s.len() {
        lemma_dec_val_all_zero(s);
    } else {
        let dl = s.drop_last();
        lemma_dec_val_skip_zeros(dl, k);
        assert(s.subrange(k, s.len() as int).drop_last()
            =~= dl.subrange(k, dl.len() as int));
        assert(s.subrange(k, s.len() as int).last() == s.last());
    }
}

/// A text of zeros is worth zero.
proof fn lemma_dec_val_all_zero(s: Seq<char>)
    requires
        forall|j: int| 0 <= j < s.len() ==> s[j] == '0',
    ensures
        dec_val(s) == 0,
    decreases s.len(),
{
    if s.len() > 0 {
        lemma_dec_val_all_zero(s.drop_last());
    }
}

/// The decimal text of a natural number is all digits and reads back to
/// the same value.
pub proof fn lemma_dec_nat_str(n: nat)
    ensures
        all_digits(dec_nat_str(n)),
        dec_nat_str(n).len() >= 1,
        dec_val(dec_nat_str(n)) == n,
    decreases n,
{
    if n < 10 {
        let s = dec_nat_str(n);
        assert(s =~= seq![digit_char(n as int)]);
        assert(s.drop_last() =~= Seq::<char>::empty());
        assert(s.last() == digit_char(n as int));
        assert(digit_val(digit_char(n as int)) == n);
        assert(dec_val(s) == dec_val(s.drop_last()) * 10 + digit_val(s.last()));
    } else {
        lemma_dec_nat_str(n / 10);
        let s = dec_nat_str(n);
        let pre = dec_nat_str(n / 10);
        assert(s.drop_last() =~= pre);
        assert(s.last() == digit_char(n as int % 10));
        assert(dec_val(s) == dec_val(pre) * 10 + digit_val(digit_char(n as int % 10)));
        assert(digit_val(digit_char(n as int % 10)) == n % 10);
        vstd::arithmetic::div_mod::lemma_fundamental_div_mod(n as int, 10);
    }
}

/// The parsed integer value of a number text, if the text is an optional
/// minus sign followed by digits alone.  A fraction, an exponent, or any
/// other character yields nothing.
pub open spec fn num_as_int(t: Seq<char>) -> Option<int> {
    if t.len() > 0 && t[0] == '-' {
        let d = t.subrange(1, t.len() as int);
        if d.len() > 0 && all_digits(d) {
            Some(-dec_val(d))
        } else {
            None
        }
    } else if t.len() > 0 && all_digits(t) {
        Some(dec_val(t))
    } else {
        None
    }
}

/// The parsed value of a number text when it names an integer that fits
/// in an `i64`.
pub open spec fn num_as_i64(t: Seq<char>) -> Option<int> {
    match num_as_int(t) {
        Some(v) => if i64::MIN <= v <= i64::MAX {
            Some(v)
        } else {
            None
        },
        None => None,
    }
}

/// The decimal digit character for a value below ten.
fn to_digit_char(d: u64) -> (c: char)
    requires
        d < 10,
    ensures
        c == digit_char(d as int),
{
    if d == 0 { '0' }
    else if d == 1 { '1' }
    else if d == 2 { '2' }
    else if d == 3 { '3' }
    else if d == 4 { '4' }
    else if d == 5 { '5' }
    else if d == 6 { '6' }
    else if d == 7 { '7' }
    else if d == 8 { '8' }
    else { '9' }
}

/// Appends the decimal digits of a natural number.
fn push_dec_u64(n: u64, out: &mut Vec<char>)
    ensures
        final(out)@ == old(out)@ + dec_nat_str(n as nat),
    decreases n,
{
    if n < 10 {
        out.push(to_digit_char(n));
        proof {
            assert(old(out)@.push(digit_char(n as int))
                =~= old(out)@ + seq![digit_char(n as int)]);
        }
    } else {
        push_dec_u64(n / 10, out);
        out.push(to_digit_char(n % 10));
        proof {
            assert((old(out)@ + dec_nat_str(n as nat / 10)).push(digit_char(n as int % 10))
                =~= old(out)@ + (dec_nat_str(n as nat / 10) + seq![digit_char(n as int % 10)]));
        }
    }
}

/// Appends the decimal digits of a status-code-sized number.
pub fn push_dec_u16(n: u16, out: &mut Vec<char>)
    ensures
        final(out)@ == old(out)@ + dec_int_str(n as int),
{
    push_dec_u64(n as u64, out);
}

impl JsonNumber {
    /// The number with the decimal text of the given integer.
    pub fn from_i64(n: i64) -> (r: JsonNumber)
        ensures
            r@ == dec_int_str(n as int),
    {
        let mut out: Vec<char> = Vec::new();
        if n >= 0 {
            push_dec_u64(n as u64, &mut out);
        } else {
            out.push('-');
            let m: u64 = (-(n as i128)) as u64;
            push_dec_u64(m, &mut out);
            proof {
                assert(seq!['-'] + dec_nat_str(m as nat)
                    =~= Seq::<char>::empty().push('-') + dec_nat_str(m as nat));
            }
        }
        JsonNumber { text: crate::text::string_from_chars(&out) }
    }

    /// The integer this number names, when its text is an optional minus
    /// sign followed by digits alone and the value fits in an `i64`.
    pub fn as_i64(&self) -> (r: Option<i64>)
        ensures
            match r {
                Some(x) => num_as_i64(self.text@) == Some(x as int),
                None => num_as_i64(self.text@) is None,
            },
    {
        num_text_as_i64(self.text.as_str())
    }
}

/// The integer a number text names, when it is an optional minus sign
/// followed by digits alone and the value fits in an `i64`.
#[verifier::loop_isolation(false)]
#[verifier::rlimit(60)]
pub fn num_text_as_i64(text: &str) -> (r: Option<i64>)
    ensures
        match r {
            Some(x) => num_as_i64(text@) == Some(x as int),
            None => num_as_i64(text@) is None,
        },
{
    let t = crate::text::str_to_chars(text);
    let n = t.len();
    let neg = n > 0 && t[0] == '-';
    let start: usize = if neg { 1 } else { 0 };
    if start >= n {
        return None;
    }
    let ghost d = text@.subrange(start as int, n as int);
    proof {
        if !neg {
            assert(d =~= text@);
        }
    }
    let mut i: usize = start;
    while i < n
        invariant
            start <= i <= n,
            forall|k: int| start <= k < i ==> is_digit(#[trigger] t@[k]),
        decreases n - i,
    {
        let c = t[i];
        if !('0' <= c && c <= '9') {
            proof {
                assert(d[i as int - start as int] == t@[i as int]);
                assert(!is_digit(d[i as int - start as int]));
            }
            return None;
        }
        i += 1;
    }
    proof {
        assert forall|k: int| 0 <= k < d.len() implies is_digit(#[trigger] d[k]) by {
            assert(d[k] == t@[k + start as int]);
        }
        assert(all_digits(d));
    }
    let mut z: usize = start;
    while z < n && t[z] == '0'
        invariant
            start <= z <= n,
            forall|k: int| start <= k < z ==> t@[k] == '0',
        decreases n - z,
    {
        z += 1;
    }
    let ghost dz = text@.subrange(z as int, n as int);
    proof {
        assert(dz =~= d.subrange(z as int - start as int, d.len() as int));
        assert forall|j2: int| 0 <= j2 < z as int - start as int implies d[j2] == '0' by {
            assert(d[j2] == t@[j2 + start as int]);
        }
        lemma_dec_val_skip_zeros(d, z as int - start as int);
        assert(dec_val(d) == dec_val(dz));
        reveal_with_fuel(pow10, 21);
        assert(pow10(19) == 10000000000000000000);
    }
    if n - z > 19 {
        proof {
            assert(t@[z as int] != '0');
            assert(dz[0] == t@[z as int]);
            assert(is_digit(dz[0]) && dz[0] != '0');
            assert(digit_val(dz[0]) >= 1);
            lemma_dec_val_lower(dz);
            lemma_pow10_mono(19, (dz.len() - 1) as nat);
            assert(digit_val(dz[0]) * pow10((dz.len() - 1) as nat)
                >= 1 * pow10((dz.len() - 1) as nat)) by (nonlinear_arith)
                requires
                    digit_val(dz[0]) >= 1,
                    pow10((dz.len() - 1) as nat) >= 0,
            ;
            assert(dec_val(d) > i64::MAX);
        }
        return None;
    }
    let mut acc: u64 = 0;
    let mut j: usize = z;
    proof {
        assert(text@.subrange(z as int, z as int) =~= Seq::<char>::empty());
    }
    while j < n
        invariant
            z <= j <= n,
            acc == dec_val(text@.subrange(z as int, j as int)),
            acc < pow10((j - z) as nat),
        decreases n - j,
    {
        let c = t[j];
        proof {
            reveal_with_fuel(pow10, 21);
            assert(is_digit(t@[j as int]));
            assert(c as u32 >= 48 && c as u32 <= 57);
            lemma_pow10_mono((j - z) as nat, 18);
            assert(text@.subrange(z as int, j as int + 1).drop_last()
                =~= text@.subrange(z as int, j as int));
            assert(text@.subrange(z as int, j as int + 1).last() == text@[j as int]);
            assert(pow10((j + 1 - z) as nat) == 10 * pow10((j - z) as nat));
        }
        let dv: u64 = (c as u32 - 48) as u64;
        proof {
            assert(dv == digit_val(t@[j as int]));
        }
        acc = acc * 10 + dv;
        j += 1;
    }
    proof {
        assert(acc == dec_val(dz));
        assert(dec_val(d) == acc);
    }
    if neg {
        proof {
            assert(text@[0] == '-');
            assert(num_as_int(text@) == Some(-dec_val(d)));
        }
        if acc <= 9223372036854775808u64 {
            let v: i64 = (-(acc as i128)) as i64;
            Some(v)
        } else {
            proof {
                assert(-dec_val(d) < i64::MIN);
            }
            None
        }
    } else {
        proof {
            assert(num_as_int(text@) == Some(dec_val(d)));
        }
        if acc <= 9223372036854775807u64 {
            Some(acc as i64)
        } else {
            None
        }
    }
}

/// The models of the documents in a sequence.
pub open spec fn seq_model(a: Seq<JsonValue>) -> Seq<JsonV> {
    Seq::new(a.len(), |i: int| a[i]@)
}

/// The models of the name/value pairs in a sequence.
pub open spec fn pairs_model(o: Seq<(String, JsonValue)>) -> Seq<(Seq<char>, JsonV)> {
    Seq::new(o.len(), |i: int| (o[i].0@, o[i].1@))
}

/// An array's model is the model of its elements.
pub proof fn lemma_array_model(v: Vec<JsonValue>)
    ensures
        value_model(JsonValue::Array(v)) == JsonV::Arr(seq_model(v@)),
{
    assert(value_model(JsonValue::Array(v))->Arr_0 =~= seq_model(v@));
    assert(value_model(JsonValue::Array(v)) =~~= JsonV::Arr(seq_model(v@)));
}

/// An object's model is the model of its pairs.
pub proof fn lemma_object_model(o: Vec<(String, JsonValue)>)
    ensures
        value_model(JsonValue::Object(o)) == JsonV::Obj(pairs_model(o@)),
{
    assert(value_model(JsonValue::Object(o))->Obj_0 =~= pairs_model(o@));
    assert(value_model(JsonValue::Object(o)) =~~= JsonV::Obj(pairs_model(o@)));
}

/// What looking a name up in an object yields: the last pair with that
/// name, as a map built from the pairs in order would hold it.
pub open spec fn obj_get(pairs: Seq<(Seq<char>, JsonV)>, key: Seq<char>) -> Option<JsonV>
    decreases pairs.len(),
{
    if pairs.len() == 0 {
        None
    } else if pairs.last().0 == key {
        Some(pairs.last().1)
    } else {
        obj_get(pairs.drop_last(), key)
    }
}

/// Looks a name up in an object's pair list: the last pair bound to the
/// name, as [`obj_get`] says.
#[verifier::loop_isolation(false)]
pub fn obj_lookup<'a>(pairs: &'a Vec<(String, JsonValue)>, key: &str) -> (r: Option<
    &'a JsonValue,
>)
    ensures
        match r {
            Some(v) => obj_get(pairs_model(pairs@), key@) == Some(v@) && exists|j: int|
                0 <= j < pairs@.len() && pairs@[j].1 == *v,
            None => obj_get(pairs_model(pairs@), key@) is None,
        },
{
    let ghost pm = pairs_model(pairs@);
    let mut i: usize = pairs.len();
    proof {
        assert(pm.take(pairs@.len() as int) =~= pm);
    }
    while i > 0
        invariant
            i <= pairs@.len(),
            obj_get(pm, key@) == obj_get(pm.take(i as int), key@),
        decreases i,
    {
        if crate::text::str_eq(pairs[i - 1].0.as_str(), key) {
            proof {
                assert(pm.take(i as int).last() == pm[i as int - 1]);
                assert(pm[i as int - 1].0 == key@);
                assert(obj_get(pm.take(i as int), key@) == Some(pm[i as int - 1].1));
            }
            return Some(&pairs[i - 1].1);
        }
        proof {
            assert(pm.take(i as int).last() == pm[i as int - 1]);
            assert(pm.take(i as int).drop_last() =~= pm.take(i as int - 1));
        }
        i -= 1;
    }
    proof {
        assert(pm.take(0) =~= Seq::<(Seq<char>, JsonV)>::empty());
    }
    None
}

} // verus!
