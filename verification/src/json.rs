//! A JSON document as the library reads and writes it.
//!
//! The library holds no floating point, so a number carries the readings
//! the logic takes of it: its integer views and, where its floating-point
//! value is known, a percentage rounded and clamped to `0..=100` and the value
//! written with two decimals. A text that spells a number carries the same
//! readings.

use vstd::prelude::*;
use crate::text::{is_white_space_char, trim_text, trimmed};

verus! {

/// What the floating-point value of a number reads as.
#[derive(Clone, Debug, PartialEq, Eq)]
pub struct NumberReading {
    /// Whether the value is finite (a text may spell `inf` or `NaN`).
    pub finite: bool,
    /// The value rounded half away from zero and clamped to `0..=100`.
    pub percent: u32,
    /// The value written with exactly two decimals.
    pub amount_label: String,
    /// The value as `f64`'s `Display` writes it.
    pub display_label: String,
}

/// What the logic reads of a number.
#[derive(Clone, Debug, PartialEq, Eq)]
pub struct JsonNumber {
    /// The number, when it is a non-negative integer that fits in `u64`.
    pub as_u64: Option<u64>,
    /// The number, when it is an integer that fits in `i64`.
    pub as_i64: Option<i64>,
    /// The readings of its floating-point value; `None` where the library
    /// built the number itself and took no such reading.
    pub reading: Option<NumberReading>,
}

/// A JSON value. An object lists its members in key order, each key once.
#[derive(Debug, PartialEq, Eq)]
pub enum JsonValue {
    Null,
    Bool(bool),
    Number(JsonNumber),
    /// A text, with the readings of the number it spells when trimmed, if
    /// any (`None` also where the library built the text itself).
    String(String, Option<NumberReading>),
    Array(Vec<JsonValue>),
    Object(Vec<JsonMember>),
}

/// One member of an object.
#[derive(Debug, PartialEq, Eq)]
pub struct JsonMember {
    pub key: String,
    pub value: JsonValue,
}

/// Whether `key` names a member of `members`.
pub open spec fn has_key(members: Seq<JsonMember>, key: Seq<char>) -> bool {
    exists|i: int| 0 <= i < members.len() && members[i].key@ == key
}

/// The first member named `key`.
pub open spec fn first_key_index(members: Seq<JsonMember>, key: Seq<char>) -> int {
    choose|i: int|
        0 <= i < members.len() && members[i].key@ == key && forall|j: int|
            0 <= j < i ==> members[j].key@ != key
}

/// The value of the member named `key`, if there is one.
#[verifier::opaque]
pub open spec fn member(members: Seq<JsonMember>, key: Seq<char>) -> Option<JsonValue> {
    if has_key(members, key) {
        Some(members[first_key_index(members, key)].value)
    } else {
        None
    }
}

/// The first member under `key` sits at the index the lookup finds.
pub proof fn lemma_first_key_index(members: Seq<JsonMember>, key: Seq<char>, k: int)
    requires
        0 <= k < members.len(),
        members[k].key@ == key,
        forall|j: int| 0 <= j < k ==> members[j].key@ != key,
    ensures
        first_key_index(members, key) == k,
        member(members, key) == Some(members[k].value),
{
    reveal(member);
    assert(has_key(members, key));
    let w = first_key_index(members, key);
    assert(0 <= w < members.len() && members[w].key@ == key && forall|j: int|
        0 <= j < w ==> members[j].key@ != key);
    if w < k {
    } else if w > k {
        assert(members[k].key@ != key);
    }
}

/// The member named `key` of `members`, if any.
pub fn get_member<'a>(members: &'a Vec<JsonMember>, key: &str) -> (r: Option<&'a JsonValue>)
    ensures
        match r {
            Some(v) => member(members@, key@) == Some(*v),
            None => member(members@, key@) is None,
        },
{
    reveal(member);
    let mut i: usize = 0;
    while i < members.len()
        invariant
            i <= members.len(),
            forall|j: int| 0 <= j < i ==> members@[j].key@ != key@,
        decreases members.len() - i,
    {
        if crate::text::same_text(members[i].key.as_str(), key) {
            proof {
                lemma_first_key_index(members@, key@, i as int);
            }
            return Some(&members[i].value);
        }
        i = i + 1;
    }
    None
}

/// The member named `key` of an object value; nothing for other values.
pub open spec fn field(v: Option<JsonValue>, key: Seq<char>) -> Option<JsonValue> {
    match v {
        Some(JsonValue::Object(ms)) => member(ms@, key),
        _ => None,
    }
}

/// The member `key` of `v` when `v` is an object.
pub fn get_field<'a>(v: Option<&'a JsonValue>, key: &str) -> (r: Option<&'a JsonValue>)
    ensures
        match r {
            Some(x) => field(
                match v {
                    Some(y) => Some(*y),
                    None => None,
                },
                key@,
            ) == Some(*x),
            None => field(
                match v {
                    Some(y) => Some(*y),
                    None => None,
                },
                key@,
            ) is None,
        },
{
    match v {
        Some(JsonValue::Object(ms)) => get_member(ms, key),
        _ => None,
    }
}

/// The text of a string value.
pub open spec fn text_of(v: Option<JsonValue>) -> Option<Seq<char>> {
    match v {
        Some(JsonValue::String(s, _)) => Some(s@),
        _ => None,
    }
}

/// The text of `v` when it is a string, as a new `String`.
pub fn as_text(v: Option<&JsonValue>) -> (r: Option<String>)
    ensures
        match r {
            Some(s) => text_of(
                match v {
                    Some(y) => Some(*y),
                    None => None,
                },
            ) == Some(s@),
            None => text_of(
                match v {
                    Some(y) => Some(*y),
                    None => None,
                },
            ) is None,
        },
{
    match v {
        Some(JsonValue::String(s, _)) => Some(s.clone()),
        _ => None,
    }
}

/// The value of a boolean.
pub open spec fn bool_of(v: Option<JsonValue>) -> Option<bool> {
    match v {
        Some(JsonValue::Bool(b)) => Some(b),
        _ => None,
    }
}

pub open spec fn is_ascii_digit(c: char) -> bool {
    '0' <= c && c <= '9'
}

pub open spec fn all_digits(s: Seq<char>) -> bool {
    forall|i: int| 0 <= i < s.len() ==> is_ascii_digit(#[trigger] s[i])
}

/// The number that a run of decimal digits spells.
pub open spec fn digits_value(s: Seq<char>) -> nat
    decreases s.len(),
{
    if s.len() == 0 {
        0
    } else {
        digits_value(s.drop_last()) * 10 + ((s.last() as int) - ('0' as int)) as nat
    }
}

/// What `u64::from_str` gives for `s`: an optional `+`, then one or more
/// decimal digits whose value fits in a `u64`.
pub open spec fn parse_u64_spec(s: Seq<char>) -> Option<u64> {
    let body = if s.len() > 0 && s[0] == '+' {
        s.drop_first()
    } else {
        s
    };
    if body.len() > 0 && all_digits(body) && digits_value(body) <= u64::MAX {
        Some(digits_value(body) as u64)
    } else {
        None
    }
}

proof fn lemma_digits_value_monotone(s: Seq<char>, k: int)
    requires
        0 <= k <= s.len(),
        all_digits(s),
    ensures
        digits_value(s.subrange(0, k)) <= digits_value(s),
    decreases s.len() - k,
{
    if k < s.len() {
        lemma_digits_value_monotone(s, k + 1);
        let t = s.subrange(0, k + 1);
        assert(t.drop_last() == s.subrange(0, k));
        assert(is_ascii_digit(s[k]));
        assert(t.last() == s[k]);
    } else {
        assert(s.subrange(0, k) == s);
    }
}

/// Parses `s` as `u64::from_str` does.
pub fn parse_u64(s: &str) -> (r: Option<u64>)
    ensures
        r == parse_u64_spec(s@),
{
    let cs = crate::text::chars_of(s);
    let n = cs.len();
    let mut start: usize = 0;
    if n > 0 && cs[0] == '+' {
        start = 1;
    }
    let ghost body = if s@.len() > 0 && s@[0] == '+' {
        s@.drop_first()
    } else {
        s@
    };
    assert(body == s@.subrange(start as int, n as int));
    assert(parse_u64_spec(s@) == if body.len() > 0 && all_digits(body) && digits_value(body)
        <= u64::MAX {
        Some(digits_value(body) as u64)
    } else {
        None
    });
    if start == n {
        return None;
    }
    let mut value: u64 = 0;
    let mut i: usize = start;
    while i < n
        invariant
            cs@ == s@,
            n == s@.len(),
            start <= i <= n,
            body == s@.subrange(start as int, n as int),
            parse_u64_spec(s@) == if body.len() > 0 && all_digits(body) && digits_value(body)
                <= u64::MAX {
                Some(digits_value(body) as u64)
            } else {
                None
            },
            all_digits(s@.subrange(start as int, i as int)),
            value == digits_value(s@.subrange(start as int, i as int)),
        decreases n - i,
    {
        let c = cs[i];
        let ghost prefix_next = s@.subrange(start as int, i + 1);
        assert(prefix_next.drop_last() == s@.subrange(start as int, i as int));
        assert(prefix_next.last() == c);
        if !('0' <= c && c <= '9') {
            proof {
                let k = i - start;
                assert(body[k] == s@[i as int]);
                assert(s@[i as int] == c);
                assert(!is_ascii_digit(body[k]));
                assert(!all_digits(body));
                assert(parse_u64_spec(s@) is None);
            }
            return None;
        }
        let d: u64 = if c == '0' { 0 }
            else if c == '1' { 1 }
            else if c == '2' { 2 }
            else if c == '3' { 3 }
            else if c == '4' { 4 }
            else if c == '5' { 5 }
            else if c == '6' { 6 }
            else if c == '7' { 7 }
            else if c == '8' { 8 }
            else { 9 };
        assert(d == (c as int) - ('0' as int));
        assert(all_digits(prefix_next));
        if value > (u64::MAX - d) / 10 {
            proof {
                assert(digits_value(prefix_next) == value * 10 + d);
                assert(value * 10 + d > u64::MAX) by (nonlinear_arith)
                    requires
                        value > (u64::MAX - d) / 10,
                        d <= 9,
                ;
                if all_digits(body) {
                    lemma_digits_value_monotone(body, i + 1 - start);
                    assert(body.subrange(0, i + 1 - start) == prefix_next);
                    assert(digits_value(body) > u64::MAX);
                }
                assert(parse_u64_spec(s@) is None);
            }
            return None;
        }
        value = value * 10 + d;
        i = i + 1;
    }
    Some(value)
}

/// What `read_integer` takes a value to be: a non-negative integer number,
/// or a text that, trimmed, parses as a `u64`.
pub open spec fn integer_of(v: Option<JsonValue>) -> Option<u64> {
    match v {
        Some(JsonValue::Number(n)) => match n.as_u64 {
            Some(u) => Some(u),
            None => match n.as_i64 {
                Some(i) => if i >= 0 {
                    Some(i as u64)
                } else {
                    None
                },
                None => None,
            },
        },
        Some(JsonValue::String(s, _)) => parse_u64_spec(trimmed(s@)),
        _ => None,
    }
}

/// Reads `v` as a non-negative integer.
pub fn read_integer(v: Option<&JsonValue>) -> (r: Option<u64>)
    ensures
        r == integer_of(
            match v {
                Some(y) => Some(*y),
                None => None,
            },
        ),
{
    match v {
        Some(JsonValue::Number(n)) => match n.as_u64 {
            Some(u) => Some(u),
            None => match n.as_i64 {
                Some(i) => if i >= 0 {
                    Some(i as u64)
                } else {
                    None
                },
                None => None,
            },
        },
        Some(JsonValue::String(s, _)) => parse_u64(trim_text(s.as_str())),
        _ => None,
    }
}

/// The floating-point readings of the number `v` is or spells, if known.
pub open spec fn reading_of(v: Option<JsonValue>) -> Option<NumberReading> {
    match v {
        Some(JsonValue::Number(n)) => n.reading,
        Some(JsonValue::String(_, reading)) => reading,
        _ => None,
    }
}

/// The percentage `v` reads as, if any.
pub open spec fn percent_of(v: Option<JsonValue>) -> Option<u32> {
    match reading_of(v) {
        Some(r) => Some(r.percent),
        None => None,
    }
}

/// Reads `v` as a percentage.
pub fn read_percent(v: Option<&JsonValue>) -> (r: Option<u32>)
    ensures
        r == percent_of(
            match v {
                Some(y) => Some(*y),
                None => None,
            },
        ),
{
    match v {
        Some(JsonValue::Number(n)) => match &n.reading {
            Some(x) => Some(x.percent),
            None => None,
        },
        Some(JsonValue::String(_, reading)) => match reading {
            Some(x) => Some(x.percent),
            None => None,
        },
        _ => None,
    }
}

/// The two-decimal rendering of the number `v` reads as, if any.
pub open spec fn amount_of(v: Option<JsonValue>) -> Option<Seq<char>> {
    match reading_of(v) {
        Some(r) => Some(r.amount_label@),
        None => None,
    }
}

/// Reads `v` as an amount written with two decimals.
pub fn read_amount(v: Option<&JsonValue>) -> (r: Option<String>)
    ensures
        match r {
            Some(a) => amount_of(
                match v {
                    Some(y) => Some(*y),
                    None => None,
                },
            ) == Some(a@),
            None => amount_of(
                match v {
                    Some(y) => Some(*y),
                    None => None,
                },
            ) is None,
        },
{
    match v {
        Some(JsonValue::Number(n)) => match &n.reading {
            Some(x) => Some(x.amount_label.clone()),
            None => None,
        },
        Some(JsonValue::String(_, reading)) => match reading {
            Some(x) => Some(x.amount_label.clone()),
            None => None,
        },
        _ => None,
    }
}

/// A text value built by the library.
pub fn json_text(s: String) -> (r: JsonValue)
    ensures
        r matches JsonValue::String(t, None) && t@ == s@,
{
    JsonValue::String(s, None)
}

/// A text value, or `null` for nothing.
pub fn json_opt_text(s: Option<String>) -> (r: JsonValue)
    ensures
        match s {
            Some(x) => r matches JsonValue::String(t, None) && t@ == x@,
            None => r is Null,
        },
{
    match s {
        Some(x) => JsonValue::String(x, None),
        None => JsonValue::Null,
    }
}

/// A non-negative integer built by the library.
pub fn json_u64(n: u64) -> (r: JsonValue)
    ensures
        r matches JsonValue::Number(m) && m.as_u64 == Some(n) && m.reading is None && m.as_i64 == (
        if n <= i64::MAX {
            Some(n as i64)
        } else {
            None
        }),
{
    let as_i64 = if n <= 9_223_372_036_854_775_807u64 {
        Some(n as i64)
    } else {
        None
    };
    JsonValue::Number(JsonNumber { as_u64: Some(n), as_i64, reading: None })
}

/// An object member.
pub fn json_member(key: &str, value: JsonValue) -> (r: JsonMember)
    ensures
        r.key@ == key@,
        r.value == value,
{
    JsonMember { key: key.to_owned(), value }
}

/// The keys of `ms`, in order.
pub open spec fn keys_of(ms: Seq<JsonMember>) -> Seq<Seq<char>> {
    ms.map_values(|m: JsonMember| m.key@)
}

pub open spec fn distinct(keys: Seq<Seq<char>>) -> bool {
    forall|i: int, j: int| 0 <= i < j < keys.len() ==> keys[i] != keys[j]
}

/// In an object whose keys are distinct, each member is found by its key.
pub proof fn lemma_member_of_distinct(ms: Seq<JsonMember>, k: int)
    requires
        distinct(keys_of(ms)),
        0 <= k < ms.len(),
    ensures
        member(ms, ms[k].key@) == Some(ms[k].value),
{
    assert forall|j: int| 0 <= j < k implies ms[j].key@ != ms[k].key@ by {
        assert(keys_of(ms)[j] == ms[j].key@);
        assert(keys_of(ms)[k] == ms[k].key@);
    }
    lemma_first_key_index(ms, ms[k].key@, k);
}

/// A key that is not among the keys of `ms` finds nothing.
pub proof fn lemma_member_absent(ms: Seq<JsonMember>, key: Seq<char>)
    requires
        !keys_of(ms).contains(key),
    ensures
        member(ms, key) is None,
{
    reveal(member);
    if has_key(ms, key) {
        let i = choose|i: int| 0 <= i < ms.len() && ms[i].key@ == key;
        assert(keys_of(ms)[i] == key);
    }
}

/// `v` is the text `t`.
pub open spec fn is_text(v: JsonValue, t: Seq<char>) -> bool {
    v matches JsonValue::String(x, _) && x@ == t
}

/// `v` is the text of `o`, or `null` for nothing.
pub open spec fn is_opt_text(v: JsonValue, o: Option<Seq<char>>) -> bool {
    match o {
        Some(t) => is_text(v, t),
        None => v is Null,
    }
}

/// `v` is the non-negative integer `n`.
pub open spec fn is_count(v: JsonValue, n: u64) -> bool {
    v matches JsonValue::Number(m) && m.as_u64 == Some(n)
}

/// The readings of `v` when its value is finite.
pub open spec fn finite_reading_of(v: Option<JsonValue>) -> Option<NumberReading> {
    match reading_of(v) {
        Some(r) => if r.finite {
            Some(r)
        } else {
            None
        },
        None => None,
    }
}

/// The readings of the finite number `v` is or spells, if any.
pub fn read_finite(v: Option<&JsonValue>) -> (r: Option<&NumberReading>)
    ensures
        match r {
            Some(x) => finite_reading_of(opt_json(v)) == Some(*x),
            None => finite_reading_of(opt_json(v)) is None,
        },
{
    let reading = match v {
        Some(JsonValue::Number(n)) => &n.reading,
        Some(JsonValue::String(_, reading)) => reading,
        _ => return None,
    };
    match reading {
        Some(x) => if x.finite {
            Some(x)
        } else {
            None
        },
        None => None,
    }
}

pub open spec fn opt_json(v: Option<&JsonValue>) -> Option<JsonValue> {
    match v {
        Some(x) => Some(*x),
        None => None,
    }
}

/// The number `v` is, when it is a non-negative integer (no text reading).
pub open spec fn u64_of(v: Option<JsonValue>) -> Option<u64> {
    match v {
        Some(JsonValue::Number(n)) => n.as_u64,
        _ => None,
    }
}

/// A deep copy of a number.
pub fn copy_number(n: &JsonNumber) -> (r: JsonNumber)
    ensures
        r == *n,
{
    JsonNumber {
        as_u64: n.as_u64,
        as_i64: n.as_i64,
        reading: match &n.reading {
            Some(x) => Some(copy_reading(x)),
            None => None,
        },
    }
}

fn copy_reading(x: &NumberReading) -> (r: NumberReading)
    ensures
        r == *x,
{
    NumberReading {
        finite: x.finite,
        percent: x.percent,
        amount_label: x.amount_label.clone(),
        display_label: x.display_label.clone(),
    }
}

} // verus!
