//! Representation of values in Lox.
//!
//! Lox numbers are IEEE-754 binary64 floats. The library carries them as their bit pattern
//! ([Value::Number]); what needs floating-point arithmetic (arithmetic, ordering, parsing and
//! printing numbers) is done by the program around the library, and handed back as bits.
//! Equality and negation are defined on the bits directly, as IEEE-754 defines them.
use crate::gc::ActiveGC;
use vstd::prelude::*;

verus! {

/// 2^63: the sign bit of a binary64 bit pattern.
pub open spec fn sign_bit() -> int {
    0x8000_0000_0000_0000
}

/// The bit pattern of positive infinity; every larger magnitude is a NaN.
pub open spec fn infinity_bits() -> int {
    0x7FF0_0000_0000_0000
}

/// The bits of a binary64 number without its sign.
pub open spec fn magnitude(bits: u64) -> int {
    if bits >= sign_bit() {
        bits - sign_bit()
    } else {
        bits as int
    }
}

/// The bit pattern is a NaN.
pub open spec fn is_nan_bits(bits: u64) -> bool {
    magnitude(bits) > infinity_bits()
}

/// IEEE-754 equality of two binary64 numbers given by their bits: no NaN equals anything, the two
/// zeros are equal, and otherwise equal numbers have equal bits.
pub open spec fn number_eq(a: u64, b: u64) -> bool {
    &&& !is_nan_bits(a)
    &&& !is_nan_bits(b)
    &&& (a == b || (magnitude(a) == 0 && magnitude(b) == 0))
}

/// IEEE-754 negation: the sign bit flips, nothing else changes.
pub open spec fn negate_bits(bits: u64) -> u64 {
    if bits >= sign_bit() {
        (bits - sign_bit()) as u64
    } else {
        (bits + sign_bit()) as u64
    }
}

/// A Lox runtime value.
///
/// Numbers, booleans, nil and strings are supported. A number is held as the bit pattern of its
/// binary64 value.
#[derive(Debug)]
pub enum Value {
    /// Nil. Doing anything with this is usually an error.
    Nil,
    /// A boolean.
    Boolean(bool),
    /// All numbers in Lox are 64-bit floating point; this is the number's bit pattern.
    Number(u64),
    /// A string.
    LoxString(String),
}

/// The mathematical content of a [Value]: a string is its sequence of characters.
pub enum ValueView {
    Nil,
    Boolean(bool),
    Number(u64),
    LoxString(Seq<char>),
}

impl View for Value {
    type V = ValueView;

    open spec fn view(&self) -> ValueView {
        match self {
            Value::Nil => ValueView::Nil,
            Value::Boolean(b) => ValueView::Boolean(*b),
            Value::Number(n) => ValueView::Number(*n),
            Value::LoxString(s) => ValueView::LoxString(s@),
        }
    }
}

/// Lox's equality: numbers by IEEE-754, booleans, nil, and strings by their characters; values
/// of different kinds are never equal.
pub open spec fn lox_equal(a: ValueView, b: ValueView) -> bool {
    match (a, b) {
        (ValueView::Number(x), ValueView::Number(y)) => number_eq(x, y),
        (ValueView::Boolean(x), ValueView::Boolean(y)) => x == y,
        (ValueView::Nil, ValueView::Nil) => true,
        (ValueView::LoxString(x), ValueView::LoxString(y)) => x == y,
        _ => false,
    }
}

/// Nil and false are "falsy"; every other value is truthy.
pub open spec fn falsy(v: ValueView) -> bool {
    v == ValueView::Nil || v == ValueView::Boolean(false)
}

/// A collection of values. Useful for a constant pool.
#[derive(Debug)]
pub struct ValueArray {
    values: Vec<Value>,
}

///////////////////////////////////////// Implementation //////////////////////////////////////////

/// Returns true if the number's bits are those of a NaN.
fn is_nan(bits: u64) -> (b: bool)
    ensures
        b == is_nan_bits(bits),
{
    let magnitude = if bits >= 0x8000_0000_0000_0000 {
        bits - 0x8000_0000_0000_0000
    } else {
        bits
    };
    magnitude > 0x7FF0_0000_0000_0000
}

/// IEEE-754 equality on bit patterns.
pub fn numbers_equal(a: u64, b: u64) -> (eq: bool)
    ensures
        eq == number_eq(a, b),
{
    if is_nan(a) || is_nan(b) {
        return false;
    }
    a == b || ((a == 0 || a == 0x8000_0000_0000_0000) && (b == 0 || b == 0x8000_0000_0000_0000))
}

/// IEEE-754 negation on a bit pattern: flips the sign bit.
pub fn negate_number(bits: u64) -> (negated: u64)
    ensures
        negated == negate_bits(bits),
{
    if bits >= 0x8000_0000_0000_0000 {
        bits - 0x8000_0000_0000_0000
    } else {
        bits + 0x8000_0000_0000_0000
    }
}

impl Clone for Value {
    fn clone(&self) -> (copy: Value)
        ensures
            copy@ == self@,
    {
        match self {
            Value::Nil => Value::Nil,
            Value::Boolean(b) => Value::Boolean(*b),
            Value::Number(n) => Value::Number(*n),
            Value::LoxString(s) => Value::LoxString(s.clone()),
        }
    }
}

impl Default for Value {
    /// [Value::Nil].
    fn default() -> (v: Value)
        ensures
            v@ == ValueView::Nil,
    {
        Value::Nil
    }
}

impl From<bool> for Value {
    /// A Lox boolean.
    fn from(value: bool) -> (v: Value) {
        Value::Boolean(value)
    }
}

impl vstd::std_specs::convert::FromSpecImpl<bool> for Value {
    open spec fn obeys_from_spec() -> bool {
        true
    }

    open spec fn from_spec(value: bool) -> Value {
        Value::Boolean(value)
    }
}

impl PartialEq for Value {
    /// Lox's equality (see [Value::equal]).
    fn eq(&self, other: &Value) -> (eq: bool) {
        self.equal(other)
    }
}

impl vstd::std_specs::cmp::PartialEqSpecImpl for Value {
    open spec fn obeys_eq_spec() -> bool {
        true
    }

    open spec fn eq_spec(&self, other: &Value) -> bool {
        lox_equal(self@, other@)
    }
}

impl Value {
    /// A Lox string holding `owned`, which is stored in the active store `gc`.
    pub fn stored_string(owned: String, gc: &mut ActiveGC) -> (v: Value)
        requires
            old(gc).wf(),
        ensures
            final(gc).wf(),
            final(gc)@ == old(gc)@.insert(owned@),
            v@ == ValueView::LoxString(owned@),
    {
        gc.store_string(owned.clone());
        Value::LoxString(owned)
    }

    /// A Lox string holding a copy of `borrowed`, which is stored in the active store `gc`.
    pub fn stored_str(borrowed: &str, gc: &mut ActiveGC) -> (v: Value)
        requires
            old(gc).wf(),
        ensures
            final(gc).wf(),
            final(gc)@ == old(gc)@.insert(borrowed@),
            v@ == ValueView::LoxString(borrowed@),
    {
        Value::stored_string(String::from_str(borrowed), gc)
    }

    /// Returns true if this value is a Lox boolean.
    pub fn is_bool(&self) -> (b: bool)
        ensures
            b == (self@ is Boolean),
    {
        matches!(self, Value::Boolean(_))
    }

    /// Returns true if this value is Lox's nil.
    pub fn is_nil(&self) -> (b: bool)
        ensures
            b == (self@ is Nil),
    {
        matches!(self, Value::Nil)
    }

    /// Returns true if this value is a Lox number.
    pub fn is_number(&self) -> (b: bool)
        ensures
            b == (self@ is Number),
    {
        matches!(self, Value::Number(_))
    }

    /// Returns true if this value is a Lox string.
    pub fn is_string(&self) -> (b: bool)
        ensures
            b == (self@ is LoxString),
    {
        matches!(self, Value::LoxString(_))
    }

    /// Returns true if this value is "falsy".
    pub fn is_falsy(&self) -> (b: bool)
        ensures
            b == falsy(self@),
    {
        matches!(self, Value::Nil | Value::Boolean(false))
    }

    /// Returns a reference to the string contents, if this value is a Lox string.
    pub fn to_str(&self) -> (s: Option<&str>)
        ensures
            s is Some <==> self@ is LoxString,
            s matches Some(s) ==> self@ == ValueView::LoxString(s@),
    {
        match self {
            Value::LoxString(string) => Some(string.as_str()),
            _ => None,
        }
    }

    /// Applies Lox's rules for equality, returning a Rust bool.
    pub fn equal(&self, other: &Value) -> (eq: bool)
        ensures
            eq == lox_equal(self@, other@),
    {
        match (self, other) {
            (Value::Number(a), Value::Number(b)) => numbers_equal(*a, *b),
            (Value::Boolean(a), Value::Boolean(b)) => *a == *b,
            (Value::Nil, Value::Nil) => true,
            (Value::LoxString(a), Value::LoxString(b)) => *a == *b,
            _ => false,
        }
    }
}

impl View for ValueArray {
    type V = Seq<ValueView>;

    closed spec fn view(&self) -> Seq<ValueView> {
        self.values@.map_values(|v: Value| v@)
    }
}

impl ValueArray {
    /// Return an empty [ValueArray].
    pub fn new() -> (array: Self)
        ensures
            array@ == Seq::<ValueView>::empty(),
    {
        let array = ValueArray { values: Vec::new() };
        assert(array@ =~= Seq::<ValueView>::empty());
        array
    }

    /// Returns a [Value] at the given index. If the index is out of bounds, this returns `None`.
    pub fn get(&self, index: usize) -> (value: Option<Value>)
        ensures
            value is Some <==> index < self@.len(),
            value matches Some(v) ==> v@ == self@[index as int],
    {
        if index < self.values.len() {
            Some(self.values[index].clone())
        } else {
            None
        }
    }

    /// Add a new [Value] to the array
    pub fn write(&mut self, value: Value)
        ensures
            final(self)@ == old(self)@.push(value@),
    {
        self.values.push(value);
        assert(self@ =~= old(self)@.push(value@));
    }

    /// Returns how many values are in the pool.
    pub fn len(&self) -> (n: usize)
        ensures
            n == self@.len(),
    {
        self.values.len()
    }

    /// Returns true if there are no values.
    pub fn is_empty(&self) -> (empty: bool)
        ensures
            empty == (self@.len() == 0),
    {
        self.values.len() == 0
    }
}

///////////////////////////////////////////// Laws ////////////////////////////////////////////////

/// Lox equality is symmetric.
pub proof fn law_equal_symmetric(a: ValueView, b: ValueView)
    ensures
        lox_equal(a, b) == lox_equal(b, a),
{
}

/// Every value equals itself, except a NaN.
pub proof fn law_equal_reflexive(a: ValueView)
    ensures
        lox_equal(a, a) <==> !(a matches ValueView::Number(x) && is_nan_bits(x)),
{
}

/// Values of different kinds are never equal.
pub proof fn law_equal_same_kind(a: ValueView, b: ValueView)
    requires
        lox_equal(a, b),
    ensures
        a is Nil ==> b is Nil,
        a is Boolean ==> b is Boolean,
        a is Number ==> b is Number,
        a is LoxString ==> b is LoxString,
{
}

/// Negating a number twice gives it back; negation keeps a NaN a NaN and any other number not.
pub proof fn law_negate_involutive(bits: u64)
    ensures
        negate_bits(negate_bits(bits)) == bits,
        is_nan_bits(negate_bits(bits)) == is_nan_bits(bits),
{
}

/// IEEE-754 equality on bit patterns: a number that is not a NaN equals itself, the two zeros
/// (bit patterns `0` and `0x8000_0000_0000_0000`) equal each other, a NaN equals nothing, and
/// any two other different bit patterns are unequal; so a number never equals its negation
/// unless it is a zero.
pub proof fn law_number_equality(a: u64, b: u64)
    ensures
        !is_nan_bits(a) ==> number_eq(a, a),
        number_eq(0, 0x8000_0000_0000_0000),
        number_eq(0x8000_0000_0000_0000, 0),
        is_nan_bits(a) ==> !number_eq(a, b) && !number_eq(b, a),
        a != b && !((a == 0 || a == 0x8000_0000_0000_0000) && (b == 0 || b
            == 0x8000_0000_0000_0000)) ==> !number_eq(a, b),
        a != 0 && a != 0x8000_0000_0000_0000 ==> !number_eq(a, negate_bits(a)),
{
}

} // verus!
