//! A parsed JSON value, and the lookups the decoder makes on it.
use vstd::prelude::*;
use crate::text::str_eq;

verus! {

/// A JSON number as sign, decimal mantissa and decimal exponent: its value is
/// the mantissa times ten to the exponent, negated when not positive.
#[derive(Clone, Copy, Debug, PartialEq, Eq, Structural)]
pub struct JsonNumber {
    pub positive: bool,
    pub mantissa: u64,
    pub exponent: i16,
}

/// A parsed JSON value. Object members keep the order of the text.
#[derive(Debug)]
pub enum Json {
    Null,
    Bool(bool),
    Number(JsonNumber),
    Str(String),
    Array(Vec<Json>),
    Object(Vec<(String, Json)>),
}

/// Ten to the power `e`.
pub open spec fn pow10(e: nat) -> nat
    decreases e,
{
    if e == 0 { 1 } else { 10 * pow10((e - 1) as nat) }
}

/// The value of `n` when it is a whole number: zero, or a mantissa with an
/// exponent that is not negative.
pub open spec fn whole_value(n: JsonNumber) -> Option<int> {
    if n.mantissa == 0 {
        Some(0)
    } else if n.exponent < 0 {
        None
    } else {
        let v = n.mantissa as int * pow10(n.exponent as nat) as int;
        Some(if n.positive { v } else { -v })
    }
}

/// The value of the first member of `fields` at or after `i` named `key`.
pub open spec fn find_from(fields: Seq<(String, Json)>, key: Seq<char>, i: int) -> Option<Json>
    decreases fields.len() - i,
{
    if i < 0 || i >= fields.len() {
        None
    } else if fields[i].0@ == key {
        Some(fields[i].1)
    } else {
        find_from(fields, key, i + 1)
    }
}

/// The member `key` of `j`: the first one of that name, when `j` is an object.
pub open spec fn member(j: Json, key: Seq<char>) -> Option<Json> {
    match j {
        Json::Object(fields) => find_from(fields@, key, 0),
        _ => None,
    }
}

/// The member `key` of `j`, if `j` is an object that has one.
pub fn get<'a>(j: &'a Json, key: &str) -> (r: Option<&'a Json>)
    ensures
        match r {
            Some(v) => member(*j, key@) == Some(*v),
            None => member(*j, key@) is None,
        },
{
    match j {
        Json::Object(fields) => {
            let n = fields.len();
            let mut i: usize = 0;
            assert(member(*j, key@) == find_from(fields@, key@, 0));
            while i < n
                invariant
                    n == fields@.len(),
                    i <= n,
                    member(*j, key@) == find_from(fields@, key@, i as int),
                decreases n - i,
            {
                if str_eq(fields[i].0.as_str(), key) {
                    assert(find_from(fields@, key@, i as int) == Some(fields@[i as int].1));
                    let v = &fields[i].1;
                    assert(*v == fields@[i as int].1);
                    return Some(v);
                }
                i = i + 1;
            }
            None
        },
        _ => None,
    }
}

proof fn lemma_pow10_step(e: nat)
    ensures
        pow10(e + 1) == 10 * pow10(e),
{
    assert(pow10(e + 1) == 10 * pow10(((e + 1) - 1) as nat));
}

proof fn lemma_pow10_positive(e: nat)
    ensures
        pow10(e) >= 1,
    decreases e,
{
    if e > 0 {
        lemma_pow10_positive((e - 1) as nat);
    }
}

/// The value of `n` as a `u32`, when it is a whole number in that range.
pub open spec fn u32_value(n: JsonNumber) -> Option<u32> {
    match whole_value(n) {
        Some(v) => if 0 <= v <= u32::MAX { Some(v as u32) } else { None },
        None => None,
    }
}

/// Reads a whole number in the range of `u32`.
pub fn number_to_u32(n: JsonNumber) -> (r: Option<u32>)
    ensures
        r == u32_value(n),
{
    if n.mantissa == 0 {
        return Some(0);
    }
    if n.exponent < 0 {
        return None;
    }
    if !n.positive {
        proof {
            lemma_pow10_positive(n.exponent as nat);
            assert(n.mantissa as int * pow10(n.exponent as nat) as int > 0) by (nonlinear_arith)
                requires pow10(n.exponent as nat) >= 1, n.mantissa > 0;
        }
        return None;
    }
    if n.mantissa > 0xffff_ffff {
        proof {
            lemma_pow10_positive(n.exponent as nat);
            assert(n.mantissa as int * pow10(n.exponent as nat) as int >= n.mantissa as int)
                by (nonlinear_arith)
                requires pow10(n.exponent as nat) >= 1, n.mantissa > 0;
        }
        return None;
    }
    let e: i16 = n.exponent;
    let mut v: u64 = n.mantissa;
    let mut k: i16 = 0;
    assert(pow10(0) == 1);
    assert(v as int == n.mantissa as int * pow10(0) as int);
    while k < e
        invariant
            0 <= k <= e,
            v <= 0xffff_ffff,
            v as int == n.mantissa as int * pow10(k as nat) as int,
            n.mantissa > 0,
            n.positive,
            e == n.exponent,
            e >= 0,
        decreases e - k,
    {
        proof {
            lemma_pow10_step(k as nat);
        }
        let w: u64 = v * 10;
        assert(w as int == n.mantissa as int * pow10((k + 1) as nat) as int) by (nonlinear_arith)
            requires w == v * 10, v as int == n.mantissa as int * pow10(k as nat) as int,
                pow10((k + 1) as nat) == 10 * pow10(k as nat);
        if w > 0xffff_ffff {
            proof {
                let rest = (e - (k + 1)) as nat;
                lemma_pow10_positive(rest);
                lemma_pow10_split((k + 1) as nat, rest);
                assert((k + 1) as nat + rest == e as nat);
                assert(n.mantissa as int * pow10(e as nat) as int >= w as int) by (nonlinear_arith)
                    requires w as int == n.mantissa as int * pow10((k + 1) as nat) as int,
                        pow10(e as nat) == pow10((k + 1) as nat) * pow10(rest),
                        pow10(rest) >= 1, n.mantissa > 0;
                assert(whole_value(n) == Some(n.mantissa as int * pow10(e as nat) as int));
            }
            return None;
        }
        v = w;
        k = k + 1;
    }
    Some(v as u32)
}

proof fn lemma_pow10_split(a: nat, b: nat)
    ensures
        pow10(a + b) == pow10(a) * pow10(b),
    decreases b,
{
    if b == 0 {
        assert(pow10(0) == 1);
        assert(a + b == a);
    } else {
        lemma_pow10_split(a, (b - 1) as nat);
        lemma_pow10_step(a + (b - 1) as nat);
        lemma_pow10_step((b - 1) as nat);
        assert(pow10(a) * (10 * pow10((b - 1) as nat)) == 10 * (pow10(a) * pow10((b - 1) as nat)))
            by (nonlinear_arith);
    }
}

} // verus!
