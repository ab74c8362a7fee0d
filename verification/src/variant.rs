//! Dynamically typed property values.

use vstd::prelude::*;
use vstd::std_specs::cmp::PartialEqSpecImpl;

verus! {

/// What a [`Variant`] stands for: its kind together with its content, text as
/// a sequence of characters and an array as a sequence of values. Each variant
/// is the counterpart of the variant of the same name.
#[verifier::ext_equal]
pub enum Value {
    Empty,
    Null,
    String(Seq<char>),
    I1(i8),
    I2(i16),
    I4(i32),
    I8(i64),
    R4(u32),
    R8(u64),
    Bool(bool),
    UI1(u8),
    UI2(u16),
    UI4(u32),
    UI8(u64),
    Array(Seq<Value>),
    Unknown,
    Object,
}

/// A value reported for one property of a management object.
///
/// The variants follow the automation value types that the management
/// subsystem uses. Two values are equal where they are of the same kind and
/// have the same content; real numbers are compared by their bit patterns.
#[derive(Debug)]
pub enum Variant {
    /// No value was set.
    Empty,
    /// An explicit null.
    Null,
    /// A text value.
    String(String),
    /// A signed 8-bit integer.
    I1(i8),
    /// A signed 16-bit integer.
    I2(i16),
    /// A signed 32-bit integer.
    I4(i32),
    /// A signed 64-bit integer.
    I8(i64),
    /// A 4-byte real number, held as its IEEE 754 binary32 bit pattern.
    R4(u32),
    /// An 8-byte real number, held as its IEEE 754 binary64 bit pattern.
    R8(u64),
    /// A truth value.
    Bool(bool),
    /// An unsigned 8-bit integer.
    UI1(u8),
    /// An unsigned 16-bit integer.
    UI2(u16),
    /// An unsigned 32-bit integer.
    UI4(u32),
    /// An unsigned 64-bit integer.
    UI8(u64),
    /// A sequence of values.
    Array(Vec<Variant>),
    /// A reference to an object of unknown interface; the reference itself is not kept.
    Unknown,
    /// A reference to an embedded management object; the reference itself is not kept.
    Object,
}

/// The value that `variant` stands for.
pub open spec fn value_of(variant: Variant) -> Value
    decreases variant, 0nat,
{
    match variant {
        Variant::Empty => Value::Empty,
        Variant::Null => Value::Null,
        Variant::String(text) => Value::String(text@),
        Variant::I1(number) => Value::I1(number),
        Variant::I2(number) => Value::I2(number),
        Variant::I4(number) => Value::I4(number),
        Variant::I8(number) => Value::I8(number),
        Variant::R4(bits) => Value::R4(bits),
        Variant::R8(bits) => Value::R8(bits),
        Variant::Bool(truth) => Value::Bool(truth),
        Variant::UI1(number) => Value::UI1(number),
        Variant::UI2(number) => Value::UI2(number),
        Variant::UI4(number) => Value::UI4(number),
        Variant::UI8(number) => Value::UI8(number),
        Variant::Array(items) => Value::Array(values_of(items@)),
        Variant::Unknown => Value::Unknown,
        Variant::Object => Value::Object,
    }
}

/// The values that `items` stand for, in order.
pub open spec fn values_of(items: Seq<Variant>) -> Seq<Value>
    decreases items, items.len(),
{
    if items.len() == 0 {
        Seq::empty()
    } else {
        values_of(items.drop_last()).push(value_of(items.last()))
    }
}

impl View for Variant {
    type V = Value;

    open spec fn view(&self) -> Value {
        value_of(*self)
    }
}

impl Variant {
    /// Whether the two stand for the same value.
    fn same_value(&self, other: &Variant) -> (same: bool)
        ensures
            same == (self@ == other@),
        decreases self,
    {
        match (self, other) {
            (Variant::Empty, Variant::Empty) => true,
            (Variant::Null, Variant::Null) => true,
            (Variant::String(left), Variant::String(right)) => *left == *right,
            (Variant::I1(left), Variant::I1(right)) => *left == *right,
            (Variant::I2(left), Variant::I2(right)) => *left == *right,
            (Variant::I4(left), Variant::I4(right)) => *left == *right,
            (Variant::I8(left), Variant::I8(right)) => *left == *right,
            (Variant::R4(left), Variant::R4(right)) => *left == *right,
            (Variant::R8(left), Variant::R8(right)) => *left == *right,
            (Variant::Bool(left), Variant::Bool(right)) => *left == *right,
            (Variant::UI1(left), Variant::UI1(right)) => *left == *right,
            (Variant::UI2(left), Variant::UI2(right)) => *left == *right,
            (Variant::UI4(left), Variant::UI4(right)) => *left == *right,
            (Variant::UI8(left), Variant::UI8(right)) => *left == *right,
            (Variant::Array(left), Variant::Array(right)) => {
                proof {
                    lemma_values_of(left@);
                    lemma_values_of(right@);
                }
                if left.len() != right.len() {
                    return false;
                }
                let mut i: usize = 0;
                while i < left.len()
                    invariant
                        self->Array_0 == *left,
                        other->Array_0 == *right,
                        *self is Array,
                        *other is Array,
                        left@.len() == right@.len(),
                        i <= left@.len(),
                        forall|j: int| 0 <= j < i ==> (#[trigger] left@[j])@ == right@[j]@,
                    decreases left@.len() - i,
                {
                    proof {
                        vstd::std_specs::vec::axiom_vec_index_decreases(*left, i as int);
                    }
                    if !left[i].same_value(&right[i]) {
                        proof {
                            lemma_values_of(left@);
                            lemma_values_of(right@);
                        }
                        return false;
                    }
                    i += 1;
                }
                proof {
                    lemma_values_of(left@);
                    lemma_values_of(right@);
                    assert(self@->Array_0 =~= other@->Array_0);
                }
                true
            },
            (Variant::Unknown, Variant::Unknown) => true,
            (Variant::Object, Variant::Object) => true,
            _ => false,
        }
    }
}

/// The values of a sequence of items are as many as the items, and each is
/// the value of the item at its place.
pub proof fn lemma_values_of(items: Seq<Variant>)
    ensures
        values_of(items).len() == items.len(),
        forall|i: int|
            #![trigger values_of(items)[i]]
            #![trigger items[i]]
            0 <= i < items.len() ==> values_of(items)[i] == value_of(items[i]),
    decreases items.len(),
{
    if items.len() > 0 {
        lemma_values_of(items.drop_last());
        assert forall|i: int| 0 <= i < items.len() implies values_of(items)[i] == value_of(
            items[i],
        ) by {
            if i < items.len() - 1 {
                assert(items.drop_last()[i] == items[i]);
            }
        }
    }
}

impl Clone for Variant {
    /// A copy that stands for the same value.
    fn clone(&self) -> (copy: Variant)
        ensures
            copy@ == self@,
        decreases self,
    {
        match self {
            Variant::Empty => Variant::Empty,
            Variant::Null => Variant::Null,
            Variant::String(text) => Variant::String(text.clone()),
            Variant::I1(number) => Variant::I1(*number),
            Variant::I2(number) => Variant::I2(*number),
            Variant::I4(number) => Variant::I4(*number),
            Variant::I8(number) => Variant::I8(*number),
            Variant::R4(bits) => Variant::R4(*bits),
            Variant::R8(bits) => Variant::R8(*bits),
            Variant::Bool(truth) => Variant::Bool(*truth),
            Variant::UI1(number) => Variant::UI1(*number),
            Variant::UI2(number) => Variant::UI2(*number),
            Variant::UI4(number) => Variant::UI4(*number),
            Variant::UI8(number) => Variant::UI8(*number),
            Variant::Array(items) => {
                let mut copies: Vec<Variant> = Vec::new();
                let mut i: usize = 0;
                while i < items.len()
                    invariant
                        self->Array_0 == *items,
                        *self is Array,
                        i <= items@.len(),
                        copies@.len() == i,
                        forall|j: int| 0 <= j < i ==> (#[trigger] copies@[j])@ == items@[j]@,
                    decreases items@.len() - i,
                {
                    proof {
                        vstd::std_specs::vec::axiom_vec_index_decreases(*items, i as int);
                    }
                    copies.push(items[i].clone());
                    i += 1;
                }
                proof {
                    lemma_values_of(items@);
                    lemma_values_of(copies@);
                    assert(values_of(copies@) =~= values_of(items@));
                }
                Variant::Array(copies)
            },
            Variant::Unknown => Variant::Unknown,
            Variant::Object => Variant::Object,
        }
    }
}

impl PartialEq for Variant {
    fn eq(&self, other: &Variant) -> (equal: bool) {
        self.same_value(other)
    }
}

impl PartialEqSpecImpl for Variant {
    open spec fn obeys_eq_spec() -> bool {
        true
    }

    open spec fn eq_spec(&self, other: &Variant) -> bool {
        self@ == other@
    }
}

impl Eq for Variant {

}

} // verus!
