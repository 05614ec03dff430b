//! The `Contains` and membership semantics shared by rule evaluation and
//! exemption conditions: substring search on strings, membership on lists.

use vstd::prelude::*;
use crate::value_objects::{
    Value, ValueV, value_eq, spec_value_eq, str_contains, spec_str_contains, values_view,
    lemma_values_view,
};

verus! {

broadcast use {vstd::std_specs::vec::group_vec_axioms, vstd::seq::group_seq_axioms};

/// Whether some element of the sequence equals the value.
pub open spec fn spec_value_in(values: Seq<ValueV>, v: ValueV) -> bool {
    exists|i: int| 0 <= i < values.len() && spec_value_eq(#[trigger] values[i], v)
}

/// The string half of the `Contains` semantics: the operand is a string that
/// occurs as a substring.
pub open spec fn spec_contains_string(s: Seq<char>, operand: ValueV) -> bool {
    operand matches ValueV::String(needle) && spec_str_contains(s, needle)
}

pub open spec fn spec_contains_value(v: ValueV, operand: ValueV) -> bool {
    match v {
        ValueV::String(s) => spec_contains_string(s, operand),
        ValueV::List(items) => spec_value_in(items, operand),
        _ => false,
    }
}

/// Returns whether some element of the list equals the value.
#[verifier::loop_isolation(false)]
pub fn contains_value_list(values: &Vec<Value>, v: &Value) -> (r: bool)
    ensures
        r == spec_value_in(values_view(values@), v.deep_view()),
{
    proof {
        lemma_values_view(values@);
    }
    let mut i: usize = 0;
    while i < values.len()
        invariant
            0 <= i <= values@.len(),
            forall|j: int|
                0 <= j < i ==> !spec_value_eq(#[trigger] values_view(values@)[j], v.deep_view()),
        decreases values@.len() - i,
    {
        if value_eq(&values[i], v) {
            proof {
                assert(spec_value_eq(values_view(values@)[i as int], v.deep_view()));
                assert(spec_value_in(values_view(values@), v.deep_view()));
            }
            return true;
        }
        i = i + 1;
    }
    false
}

/// The `Contains` semantics between a field value and an operand.
#[verifier::loop_isolation(false)]
pub fn contains_value(field_value: &Value, operand: &Value) -> (r: bool)
    ensures
        r == spec_contains_value(field_value.deep_view(), operand.deep_view()),
{
    match field_value {
        Value::String(s) => match operand {
            Value::String(needle) => str_contains(s.as_str(), needle.as_str()),
            _ => false,
        },
        Value::List(items) => {
            proof {
                lemma_values_view(items@);
            }
            let mut i: usize = 0;
            while i < items.len()
                invariant
                    0 <= i <= items@.len(),
                    forall|j: int|
                        0 <= j < i ==> !spec_value_eq(
                            #[trigger] values_view(items@)[j],
                            operand.deep_view(),
                        ),
                decreases items@.len() - i,
            {
                if value_eq(&items[i], operand) {
                    proof {
                        assert(spec_value_eq(values_view(items@)[i as int], operand.deep_view()));
                        assert(spec_value_in(values_view(items@), operand.deep_view()));
                        assert(field_value.deep_view() == ValueV::List(values_view(items@)));
                        assert(spec_contains_value(
                            ValueV::List(values_view(items@)),
                            operand.deep_view(),
                        ));
                    }
                    return true;
                }
                i = i + 1;
            }
            false
        },
        _ => false,
    }
}


} // verus!
