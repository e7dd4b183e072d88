//! How the parts of JSON values are found, and when two values are equal.

use vstd::prelude::*;
use crate::json::{
    JsonView, NumberView, field, is_whole, lookup, nested, nests_within, prints_back, read_depth,
    same_value, text_of,
};

verus! {

/// An object has the fields that it holds, and nothing else has any; a field of
/// a field is found in the object that is there.
pub proof fn law_fields_are_found(
    map: Map<Seq<char>, JsonView>,
    name: Seq<char>,
    value: JsonView,
    inner: Seq<char>,
)
    ensures
        lookup(map.insert(name, value), name) == Some(value),
        inner != name ==> lookup(map.insert(name, value), inner) == lookup(map, inner),
        lookup(map.remove(name), name) is None,
        lookup(Map::empty(), name) is None,
        field(JsonView::Object(map), name) == lookup(map, name),
        !(value is Object) ==> field(value, name) is None,
        nested(JsonView::Object(map.insert(name, value)), name, inner) == field(value, inner),
        nested(JsonView::Object(map.remove(name)), name, inner) is None,
        text_of(Some(JsonView::Text(name))) == Some(name),
        !(value is Text) ==> text_of(Some(value)) is None,
        text_of(None) is None,
{
}

/// Every value equals itself.
pub proof fn law_values_equal_themselves(value: JsonView)
    ensures
        same_value(value, value),
    decreases value,
{
    match value {
        JsonView::Array(items) => {
            assert forall|i: int| 0 <= i < items.len() implies same_value(
                #[trigger] items[i],
                items[i],
            ) by {
                law_values_equal_themselves(items[i]);
            }
        },
        JsonView::Object(map) => {
            assert forall|k: Seq<char>| #[trigger] map.contains_key(k) implies same_value(
                map[k],
                map[k],
            ) by {
                law_values_equal_themselves(map[k]);
            }
        },
        _ => {},
    }
}

/// Values without fractions are equal only where they are the same.
pub proof fn law_equal_values_are_the_same(a: JsonView, b: JsonView)
    requires
        is_whole(a),
        same_value(a, b),
    ensures
        a == b,
    decreases a,
{
    match (a, b) {
        (JsonView::Array(x), JsonView::Array(y)) => {
            assert forall|i: int| 0 <= i < x.len() implies x[i] == y[i] by {
                law_equal_values_are_the_same(x[i], y[i]);
            }
            assert(x =~= y);
        },
        (JsonView::Object(x), JsonView::Object(y)) => {
            assert forall|k: Seq<char>| #[trigger] x.contains_key(k) implies x[k] == y[k] by {
                law_equal_values_are_the_same(x[k], y[k]);
            }
            assert(x =~= y);
        },
        _ => {},
    }
}

/// The two zeros among the fractions are one number; apart from them, numbers
/// are equal only where they are the same.
pub proof fn law_equal_numbers(a: NumberView, b: NumberView)
    ensures
        same_value(
            JsonView::Number(NumberView::Fraction("0.0"@)),
            JsonView::Number(NumberView::Fraction("-0.0"@)),
        ),
        same_value(JsonView::Number(a), JsonView::Number(b)) ==> a == b || (a is Fraction
            && b is Fraction && (a->Fraction_0 == "0.0"@ || a->Fraction_0 == "-0.0"@) && (
        b->Fraction_0 == "0.0"@ || b->Fraction_0 == "-0.0"@)),
{
}

/// A value that can be printed and read back holds no fraction and is not
/// nested deeper than what is read, which is 127 levels.
pub proof fn law_what_is_read_back(value: JsonView, depth: nat)
    ensures
        prints_back(value, depth) <==> is_whole(value) && nests_within(value, depth),
        read_depth() == 127,
    decreases value,
{
    match value {
        JsonView::Array(items) => {
            if depth > 0 {
                assert forall|i: int| 0 <= i < items.len() implies (prints_back(
                    #[trigger] items[i],
                    (depth - 1) as nat,
                ) <==> is_whole(items[i]) && nests_within(items[i], (depth - 1) as nat)) by {
                    law_what_is_read_back(items[i], (depth - 1) as nat);
                }
            }
        },
        JsonView::Object(map) => {
            if depth > 0 {
                assert forall|k: Seq<char>| #[trigger] map.contains_key(k) implies (prints_back(
                    map[k],
                    (depth - 1) as nat,
                ) <==> is_whole(map[k]) && nests_within(map[k], (depth - 1) as nat)) by {
                    law_what_is_read_back(map[k], (depth - 1) as nat);
                }
            }
        },
        _ => {},
    }
}

} // verus!
