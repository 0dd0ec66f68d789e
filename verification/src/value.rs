//! The uniform storage representation for registered values.
//!
//! A [`Value`] is a tagged union over every type the registry can hold.
//! The tag doubles as the type's identity token: two values of the same
//! concrete type always carry the same key, and values of different types
//! never share one. Recovering a typed value goes through the explicit,
//! checked downcast of the [`Storable`] trait, which returns nothing on a
//! tag mismatch instead of failing.

use vstd::prelude::*;

use crate::cell::SharedCell;

verus! {

/// A value of one of the storable types, erased into a uniform
/// representation. The variant tag is the stored type's identity.
pub enum Value {
    U8(u8),
    U16(u16),
    U32(u32),
    U64(u64),
    I64(i64),
    Bool(bool),
    Text(String),
    Cell(SharedCell),
}

impl Value {
    /// The identity token of the type this value belongs to.
    pub open spec fn key_spec(&self) -> u64 {
        match self {
            Value::U8(_) => 1,
            Value::U16(_) => 2,
            Value::U32(_) => 3,
            Value::U64(_) => 4,
            Value::I64(_) => 5,
            Value::Bool(_) => 6,
            Value::Text(_) => 7,
            Value::Cell(_) => 8,
        }
    }

    /// Returns the identity token of the type this value belongs to.
    #[verifier::when_used_as_spec(key_spec)]
    pub fn key(&self) -> (k: u64)
        ensures
            k == self.key_spec(),
    {
        match self {
            Value::U8(_) => 1,
            Value::U16(_) => 2,
            Value::U32(_) => 3,
            Value::U64(_) => 4,
            Value::I64(_) => 5,
            Value::Bool(_) => 6,
            Value::Text(_) => 7,
            Value::Cell(_) => 8,
        }
    }
}

/// A type the registry can hold: it has a stable identity token, an
/// injection into the uniform [`Value`] representation, and a checked
/// downcast back out of it.
///
/// The trait's proof obligations pin the three down: erasing and then
/// downcasting gives the original value back, and the downcast accepts
/// exactly the values that carry this type's token.
pub trait Storable: Sized {
    /// The identity token of this type.
    spec fn key_spec() -> u64;

    /// The erased form of `self`.
    spec fn to_value_spec(self) -> Value;

    /// The checked downcast: the typed value held by `v`, if `v` holds
    /// a value of this type.
    spec fn of_value_spec(v: Value) -> Option<Self>;

    /// Erasing a value and downcasting it again gives the value back,
    /// and the erased form carries this type's token.
    proof fn lemma_round_trip(v: Self)
        ensures
            Self::of_value_spec(v.to_value_spec()) == Some(v),
            v.to_value_spec().key_spec() == Self::key_spec(),
    ;

    /// The downcast succeeds exactly on values that carry this type's
    /// token, and what it returns erases back to the value it came from.
    proof fn lemma_of_value(v: Value)
        ensures
            Self::of_value_spec(v) is Some <==> v.key_spec() == Self::key_spec(),
            Self::of_value_spec(v) matches Some(x) ==> x.to_value_spec() == v,
    ;

    /// Returns the identity token of this type.
    fn key() -> (k: u64)
        ensures
            k == Self::key_spec(),
    ;

    /// Erases `self` into the uniform representation.
    fn to_value(self) -> (v: Value)
        ensures
            v == self.to_value_spec(),
    ;

    /// The checked downcast, by value.
    fn of_value(v: Value) -> (r: Option<Self>)
        ensures
            r == Self::of_value_spec(v),
    ;

    /// The checked downcast, through a shared reference.
    fn of_value_ref(v: &Value) -> (r: Option<&Self>)
        ensures
            match r {
                Some(x) => Self::of_value_spec(*v) == Some(*x),
                None => Self::of_value_spec(*v) is None,
            },
    ;

    /// The checked downcast, through an exclusive reference. On success
    /// the returned reference aliases the typed content of `v`, so the
    /// final value of `v` is the erased form of whatever the caller
    /// leaves behind it.
    fn of_value_mut(v: &mut Value) -> (r: Option<&mut Self>)
        ensures
            match r {
                Some(x) => {
                    &&& Self::of_value_spec(*old(v)) == Some(*x)
                    &&& *final(v) == final(x).to_value_spec()
                },
                None => {
                    &&& Self::of_value_spec(*old(v)) is None
                    &&& *final(v) == *old(v)
                },
            },
    ;
}

impl Storable for u8 {
    open spec fn key_spec() -> u64 {
        1
    }

    open spec fn to_value_spec(self) -> Value {
        Value::U8(self)
    }

    open spec fn of_value_spec(v: Value) -> Option<Self> {
        match v {
            Value::U8(x) => Some(x),
            _ => None,
        }
    }

    proof fn lemma_round_trip(v: Self) {
    }

    proof fn lemma_of_value(v: Value) {
    }

    fn key() -> u64 {
        1
    }

    fn to_value(self) -> Value {
        Value::U8(self)
    }

    fn of_value(v: Value) -> Option<Self> {
        match v {
            Value::U8(x) => Some(x),
            _ => None,
        }
    }

    fn of_value_ref(v: &Value) -> Option<&Self> {
        match v {
            Value::U8(x) => Some(x),
            _ => None,
        }
    }

    fn of_value_mut(v: &mut Value) -> Option<&mut Self> {
        match v {
            Value::U8(x) => Some(x),
            _ => None,
        }
    }
}

impl Storable for u16 {
    open spec fn key_spec() -> u64 {
        2
    }

    open spec fn to_value_spec(self) -> Value {
        Value::U16(self)
    }

    open spec fn of_value_spec(v: Value) -> Option<Self> {
        match v {
            Value::U16(x) => Some(x),
            _ => None,
        }
    }

    proof fn lemma_round_trip(v: Self) {
    }

    proof fn lemma_of_value(v: Value) {
    }

    fn key() -> u64 {
        2
    }

    fn to_value(self) -> Value {
        Value::U16(self)
    }

    fn of_value(v: Value) -> Option<Self> {
        match v {
            Value::U16(x) => Some(x),
            _ => None,
        }
    }

    fn of_value_ref(v: &Value) -> Option<&Self> {
        match v {
            Value::U16(x) => Some(x),
            _ => None,
        }
    }

    fn of_value_mut(v: &mut Value) -> Option<&mut Self> {
        match v {
            Value::U16(x) => Some(x),
            _ => None,
        }
    }
}

impl Storable for u32 {
    open spec fn key_spec() -> u64 {
        3
    }

    open spec fn to_value_spec(self) -> Value {
        Value::U32(self)
    }

    open spec fn of_value_spec(v: Value) -> Option<Self> {
        match v {
            Value::U32(x) => Some(x),
            _ => None,
        }
    }

    proof fn lemma_round_trip(v: Self) {
    }

    proof fn lemma_of_value(v: Value) {
    }

    fn key() -> u64 {
        3
    }

    fn to_value(self) -> Value {
        Value::U32(self)
    }

    fn of_value(v: Value) -> Option<Self> {
        match v {
            Value::U32(x) => Some(x),
            _ => None,
        }
    }

    fn of_value_ref(v: &Value) -> Option<&Self> {
        match v {
            Value::U32(x) => Some(x),
            _ => None,
        }
    }

    fn of_value_mut(v: &mut Value) -> Option<&mut Self> {
        match v {
            Value::U32(x) => Some(x),
            _ => None,
        }
    }
}

impl Storable for u64 {
    open spec fn key_spec() -> u64 {
        4
    }

    open spec fn to_value_spec(self) -> Value {
        Value::U64(self)
    }

    open spec fn of_value_spec(v: Value) -> Option<Self> {
        match v {
            Value::U64(x) => Some(x),
            _ => None,
        }
    }

    proof fn lemma_round_trip(v: Self) {
    }

    proof fn lemma_of_value(v: Value) {
    }

    fn key() -> u64 {
        4
    }

    fn to_value(self) -> Value {
        Value::U64(self)
    }

    fn of_value(v: Value) -> Option<Self> {
        match v {
            Value::U64(x) => Some(x),
            _ => None,
        }
    }

    fn of_value_ref(v: &Value) -> Option<&Self> {
        match v {
            Value::U64(x) => Some(x),
            _ => None,
        }
    }

    fn of_value_mut(v: &mut Value) -> Option<&mut Self> {
        match v {
            Value::U64(x) => Some(x),
            _ => None,
        }
    }
}

impl Storable for i64 {
    open spec fn key_spec() -> u64 {
        5
    }

    open spec fn to_value_spec(self) -> Value {
        Value::I64(self)
    }

    open spec fn of_value_spec(v: Value) -> Option<Self> {
        match v {
            Value::I64(x) => Some(x),
            _ => None,
        }
    }

    proof fn lemma_round_trip(v: Self) {
    }

    proof fn lemma_of_value(v: Value) {
    }

    fn key() -> u64 {
        5
    }

    fn to_value(self) -> Value {
        Value::I64(self)
    }

    fn of_value(v: Value) -> Option<Self> {
        match v {
            Value::I64(x) => Some(x),
            _ => None,
        }
    }

    fn of_value_ref(v: &Value) -> Option<&Self> {
        match v {
            Value::I64(x) => Some(x),
            _ => None,
        }
    }

    fn of_value_mut(v: &mut Value) -> Option<&mut Self> {
        match v {
            Value::I64(x) => Some(x),
            _ => None,
        }
    }
}

impl Storable for bool {
    open spec fn key_spec() -> u64 {
        6
    }

    open spec fn to_value_spec(self) -> Value {
        Value::Bool(self)
    }

    open spec fn of_value_spec(v: Value) -> Option<Self> {
        match v {
            Value::Bool(x) => Some(x),
            _ => None,
        }
    }

    proof fn lemma_round_trip(v: Self) {
    }

    proof fn lemma_of_value(v: Value) {
    }

    fn key() -> u64 {
        6
    }

    fn to_value(self) -> Value {
        Value::Bool(self)
    }

    fn of_value(v: Value) -> Option<Self> {
        match v {
            Value::Bool(x) => Some(x),
            _ => None,
        }
    }

    fn of_value_ref(v: &Value) -> Option<&Self> {
        match v {
            Value::Bool(x) => Some(x),
            _ => None,
        }
    }

    fn of_value_mut(v: &mut Value) -> Option<&mut Self> {
        match v {
            Value::Bool(x) => Some(x),
            _ => None,
        }
    }
}

impl Storable for String {
    open spec fn key_spec() -> u64 {
        7
    }

    open spec fn to_value_spec(self) -> Value {
        Value::Text(self)
    }

    open spec fn of_value_spec(v: Value) -> Option<Self> {
        match v {
            Value::Text(x) => Some(x),
            _ => None,
        }
    }

    proof fn lemma_round_trip(v: Self) {
    }

    proof fn lemma_of_value(v: Value) {
    }

    fn key() -> u64 {
        7
    }

    fn to_value(self) -> Value {
        Value::Text(self)
    }

    fn of_value(v: Value) -> Option<Self> {
        match v {
            Value::Text(x) => Some(x),
            _ => None,
        }
    }

    fn of_value_ref(v: &Value) -> Option<&Self> {
        match v {
            Value::Text(x) => Some(x),
            _ => None,
        }
    }

    fn of_value_mut(v: &mut Value) -> Option<&mut Self> {
        match v {
            Value::Text(x) => Some(x),
            _ => None,
        }
    }
}

impl Storable for SharedCell {
    open spec fn key_spec() -> u64 {
        8
    }

    open spec fn to_value_spec(self) -> Value {
        Value::Cell(self)
    }

    open spec fn of_value_spec(v: Value) -> Option<Self> {
        match v {
            Value::Cell(x) => Some(x),
            _ => None,
        }
    }

    proof fn lemma_round_trip(v: Self) {
    }

    proof fn lemma_of_value(v: Value) {
    }

    fn key() -> u64 {
        8
    }

    fn to_value(self) -> Value {
        Value::Cell(self)
    }

    fn of_value(v: Value) -> Option<Self> {
        match v {
            Value::Cell(x) => Some(x),
            _ => None,
        }
    }

    fn of_value_ref(v: &Value) -> Option<&Self> {
        match v {
            Value::Cell(x) => Some(x),
            _ => None,
        }
    }

    fn of_value_mut(v: &mut Value) -> Option<&mut Self> {
        match v {
            Value::Cell(x) => Some(x),
            _ => None,
        }
    }
}

} // verus!
