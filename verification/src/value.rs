//! The dynamic scalar values that rows hold, with their equality and their
//! per-kind ordering.

use vstd::prelude::*;
use vstd::string::StringSliceAdditionalSpecFns;
use vstd::utf8::{encode_utf8, encode_utf8_decode_utf8};

verus! {

/// A scalar value of a row.
///
/// A float is held as its IEEE-754 bit pattern, so that two floats are equal
/// exactly when their patterns are, and its order is the IEEE total order.
#[derive(Debug, PartialEq, Eq)]
pub enum Value {
    Null,
    Bool(bool),
    Int(i64),
    Float(u64),
    Str(String),
}

/// The mathematical value that a [`Value`] stands for.
pub ghost enum ValueView {
    Null,
    Bool(bool),
    Int(int),
    Float(u64),
    Str(Seq<char>),
}

impl View for Value {
    type V = ValueView;

    open spec fn view(&self) -> ValueView {
        match self {
            Value::Null => ValueView::Null,
            Value::Bool(b) => ValueView::Bool(*b),
            Value::Int(i) => ValueView::Int(*i as int),
            Value::Float(bits) => ValueView::Float(*bits),
            Value::Str(s) => ValueView::Str(s@),
        }
    }
}

/// The result of comparing two values or two rows.
#[derive(Debug, PartialEq, Eq, Clone, Copy, Structural)]
pub enum Comparison {
    Less,
    Equal,
    Greater,
}

/// The views of a vector of values, in order.
pub open spec fn values_view(items: Seq<Value>) -> Seq<ValueView> {
    Seq::new(items.len(), |i: int| items[i]@)
}

/// The place of a float in the IEEE total order: patterns with the sign bit
/// clear keep their magnitude, those with the sign bit set fall below zero,
/// the larger the magnitude the lower.
pub open spec fn float_order_key(bits: u64) -> int {
    if bits < 0x8000_0000_0000_0000u64 {
        bits as int
    } else {
        -1 - (bits - 0x8000_0000_0000_0000u64)
    }
}

/// Whether `a` comes strictly before `b` in the lexicographic order of
/// bytes, looking from position `i` on.
pub open spec fn bytes_less_from(a: Seq<u8>, b: Seq<u8>, i: int) -> bool
    decreases a.len() - i,
{
    if i >= b.len() {
        false
    } else if i >= a.len() {
        true
    } else if a[i] != b[i] {
        a[i] < b[i]
    } else {
        bytes_less_from(a, b, i + 1)
    }
}

/// Whether `a` comes strictly before `b` when strings are ordered
/// lexicographically by the bytes of their UTF-8 text.
pub open spec fn lex_less(a: Seq<char>, b: Seq<char>) -> bool {
    bytes_less_from(encode_utf8(a), encode_utf8(b), 0)
}

/// The order of two integers.
pub open spec fn compare_ints(a: int, b: int) -> Comparison {
    if a < b {
        Comparison::Less
    } else if a == b {
        Comparison::Equal
    } else {
        Comparison::Greater
    }
}

/// The order of two strings.
pub open spec fn compare_strings(a: Seq<char>, b: Seq<char>) -> Comparison {
    if lex_less(a, b) {
        Comparison::Less
    } else if a == b {
        Comparison::Equal
    } else {
        Comparison::Greater
    }
}

/// The order of two values of one kind; `None` where the kinds differ.
pub open spec fn compare_values_spec(a: ValueView, b: ValueView) -> Option<Comparison> {
    match (a, b) {
        (ValueView::Null, ValueView::Null) => Some(Comparison::Equal),
        (ValueView::Bool(x), ValueView::Bool(y)) => Some(
            compare_ints(if x { 1 } else { 0 }, if y { 1 } else { 0 }),
        ),
        (ValueView::Int(x), ValueView::Int(y)) => Some(compare_ints(x, y)),
        (ValueView::Float(x), ValueView::Float(y)) => Some(
            compare_ints(float_order_key(x), float_order_key(y)),
        ),
        (ValueView::Str(x), ValueView::Str(y)) => Some(compare_strings(x, y)),
        _ => None,
    }
}

/// `Less` for `Greater` and `Greater` for `Less`.
pub open spec fn flip_spec(c: Comparison) -> Comparison {
    match c {
        Comparison::Less => Comparison::Greater,
        Comparison::Equal => Comparison::Equal,
        Comparison::Greater => Comparison::Less,
    }
}

/// No text comes before itself.
pub proof fn lemma_bytes_irreflexive(a: Seq<u8>, i: int)
    requires
        0 <= i,
    ensures
        !bytes_less_from(a, a, i),
    decreases a.len() - i,
{
    if i < a.len() {
        lemma_bytes_irreflexive(a, i + 1);
    }
}

/// Of two different texts that agree up to position `i`, one comes before
/// the other, and never both.
pub proof fn lemma_bytes_trichotomy(a: Seq<u8>, b: Seq<u8>, i: int)
    requires
        0 <= i <= a.len(),
        i <= b.len(),
        forall|k: int| 0 <= k < i ==> a[k] == b[k],
    ensures
        bytes_less_from(a, b, i) || a == b || bytes_less_from(b, a, i),
        !(bytes_less_from(a, b, i) && bytes_less_from(b, a, i)),
    decreases a.len() - i,
{
    if i < a.len() && i < b.len() {
        if a[i] == b[i] {
            lemma_bytes_trichotomy(a, b, i + 1);
        }
    } else if i == a.len() && i == b.len() {
        assert(a =~= b);
    }
}

/// The order of texts is transitive.
pub proof fn lemma_bytes_transitive(a: Seq<u8>, b: Seq<u8>, c: Seq<u8>, i: int)
    requires
        0 <= i,
        bytes_less_from(a, b, i),
        bytes_less_from(b, c, i),
    ensures
        bytes_less_from(a, c, i),
    decreases a.len() - i,
{
    if i < a.len() {
        if a[i] == b[i] && b[i] == c[i] {
            lemma_bytes_transitive(a, b, c, i + 1);
        }
    }
}

/// `lex_less` is irreflexive.
pub proof fn lemma_lex_irreflexive(a: Seq<char>)
    ensures
        !lex_less(a, a),
{
    lemma_bytes_irreflexive(encode_utf8(a), 0);
}

/// Of two different strings one comes before the other, and never both.
pub proof fn lemma_lex_trichotomy(a: Seq<char>, b: Seq<char>)
    ensures
        lex_less(a, b) || a == b || lex_less(b, a),
        !(lex_less(a, b) && lex_less(b, a)),
{
    lemma_bytes_trichotomy(encode_utf8(a), encode_utf8(b), 0);
    // Two strings with the same UTF-8 text are the same string.
    encode_utf8_decode_utf8(a);
    encode_utf8_decode_utf8(b);
}

/// `lex_less` is transitive.
pub proof fn lemma_lex_transitive(a: Seq<char>, b: Seq<char>, c: Seq<char>)
    requires
        lex_less(a, b),
        lex_less(b, c),
    ensures
        lex_less(a, c),
{
    lemma_bytes_transitive(encode_utf8(a), encode_utf8(b), encode_utf8(c), 0);
}

/// Comparing in the other direction gives the flipped answer.
pub proof fn lemma_compare_values_flip(a: ValueView, b: ValueView)
    ensures
        compare_values_spec(b, a) == match compare_values_spec(a, b) {
            Some(c) => Some(flip_spec(c)),
            None => None,
        },
{
    match (a, b) {
        (ValueView::Str(x), ValueView::Str(y)) => {
            lemma_lex_trichotomy(x, y);
            lemma_lex_irreflexive(x);
        },
        _ => {},
    }
}

/// Two values compare as equal exactly when they are the same value.
pub proof fn lemma_compare_values_equal(a: ValueView, b: ValueView)
    ensures
        compare_values_spec(a, b) == Some(Comparison::Equal) <==> a == b,
{
    match (a, b) {
        (ValueView::Str(x), ValueView::Str(y)) => {
            lemma_lex_irreflexive(x);
        },
        _ => {},
    }
}

/// Within one kind the order is transitive, and comparable values stay
/// comparable along a chain.
pub proof fn lemma_compare_values_transitive(a: ValueView, b: ValueView, c: ValueView)
    requires
        compare_values_spec(a, b) is Some,
        compare_values_spec(b, c) is Some,
        compare_values_spec(a, b) != Some(Comparison::Greater),
        compare_values_spec(b, c) != Some(Comparison::Greater),
    ensures
        compare_values_spec(a, c) is Some,
        compare_values_spec(a, c) != Some(Comparison::Greater),
        compare_values_spec(a, c) == Some(Comparison::Equal) ==> a == b && b == c,
{
    match (a, b, c) {
        (ValueView::Str(x), ValueView::Str(y), ValueView::Str(z)) => {
            lemma_lex_trichotomy(x, y);
            lemma_lex_trichotomy(y, z);
            lemma_lex_trichotomy(x, z);
            lemma_lex_irreflexive(x);
            if lex_less(x, y) && lex_less(y, z) {
                lemma_lex_transitive(x, y, z);
            }
            if lex_less(z, x) {
                if lex_less(x, y) {
                    lemma_lex_transitive(z, x, y);
                    lemma_lex_trichotomy(y, z);
                } else if lex_less(y, z) {
                    lemma_lex_transitive(y, z, x);
                    lemma_lex_trichotomy(x, y);
                }
            }
        },
        _ => {},
    }
}

impl Clone for Value {
    fn clone(&self) -> (r: Self)
        ensures
            r == *self,
    {
        match self {
            Value::Null => Value::Null,
            Value::Bool(b) => Value::Bool(*b),
            Value::Int(i) => Value::Int(*i),
            Value::Float(bits) => Value::Float(*bits),
            Value::Str(s) => Value::Str(s.clone()),
        }
    }
}

/// Whether the string `a` comes strictly before the string `b`.
pub fn string_less(a: &String, b: &String) -> (r: bool)
    ensures
        r == lex_less(a@, b@),
{
    let x = a.as_str().as_bytes();
    let y = b.as_str().as_bytes();
    let mut i: usize = 0;
    while i < x.len() && i < y.len()
        invariant
            i <= x@.len(),
            i <= y@.len(),
            x@ == encode_utf8(a@),
            y@ == encode_utf8(b@),
            bytes_less_from(x@, y@, 0) == bytes_less_from(x@, y@, i as int),
        decreases x@.len() - i,
    {
        if x[i] != y[i] {
            return x[i] < y[i];
        }
        i += 1;
    }
    i < y.len()
}

impl Value {
    /// Strict equality: values of different kinds are never equal.
    pub fn equals(&self, other: &Value) -> (r: bool)
        ensures
            r == (self@ == other@),
    {
        match self {
            Value::Null => matches!(other, Value::Null),
            Value::Bool(x) => match other {
                Value::Bool(y) => *x == *y,
                _ => false,
            },
            Value::Int(x) => match other {
                Value::Int(y) => *x == *y,
                _ => false,
            },
            Value::Float(x) => match other {
                Value::Float(y) => *x == *y,
                _ => false,
            },
            Value::Str(x) => match other {
                Value::Str(y) => *x == *y,
                _ => false,
            },
        }
    }
}

/// Whether the float with pattern `a` comes strictly before the one with
/// pattern `b` in the IEEE total order.
pub fn float_less(a: u64, b: u64) -> (r: bool)
    ensures
        r == (float_order_key(a) < float_order_key(b)),
{
    let a_negative = a >= 0x8000_0000_0000_0000u64;
    let b_negative = b >= 0x8000_0000_0000_0000u64;
    if a_negative && b_negative {
        a > b
    } else if a_negative {
        true
    } else if b_negative {
        false
    } else {
        a < b
    }
}

/// Swaps `Less` and `Greater`.
pub fn flip(ordering: Comparison) -> (r: Comparison)
    ensures
        r == flip_spec(ordering),
{
    match ordering {
        Comparison::Equal => Comparison::Equal,
        Comparison::Less => Comparison::Greater,
        Comparison::Greater => Comparison::Less,
    }
}

fn comparison_of(less: bool, equal: bool) -> (r: Comparison)
    ensures
        r == if less {
            Comparison::Less
        } else if equal {
            Comparison::Equal
        } else {
            Comparison::Greater
        },
{
    if less {
        Comparison::Less
    } else if equal {
        Comparison::Equal
    } else {
        Comparison::Greater
    }
}

/// Orders two values of one kind: `false < true`, integers by size, floats
/// by the IEEE total order, strings lexicographically. Values of different
/// kinds have no order, and the answer is `None`.
pub fn compare_values(a: &Value, b: &Value) -> (r: Option<Comparison>)
    ensures
        r == compare_values_spec(a@, b@),
{
    match a {
        Value::Null => match b {
            Value::Null => Some(Comparison::Equal),
            _ => None,
        },
        Value::Bool(x) => match b {
            Value::Bool(y) => Some(comparison_of(!*x && *y, *x == *y)),
            _ => None,
        },
        Value::Int(x) => match b {
            Value::Int(y) => Some(comparison_of(*x < *y, *x == *y)),
            _ => None,
        },
        Value::Float(x) => match b {
            Value::Float(y) => Some(comparison_of(float_less(*x, *y), *x == *y)),
            _ => None,
        },
        Value::Str(x) => match b {
            Value::Str(y) => Some(comparison_of(string_less(x, y), *x == *y)),
            _ => None,
        },
    }
}

} // verus!
