//! JSON values as the library reads and rewrites them, and their exchange
//! with `serde_json`, which does all parsing and printing.

use vstd::prelude::*;
use vstd::utf8::*;
use crate::text::same_text;

verus! {

/// A JSON number: an integer, or a fraction in the decimal digits that
/// `serde_json` prints for it.
pub enum Number {
    Unsigned(u64),
    Signed(i64),
    Fraction(Fraction),
}

/// A number that is no integer. Only reading a `serde_json` value makes one.
pub struct Fraction {
    text: String,
}

/// A JSON value.
pub enum Json {
    Null,
    Bool(bool),
    Number(Number),
    Text(String),
    Array(Vec<Json>),
    Object(JsonObject),
}

/// A JSON object: where a name stands twice, the last field counts.
pub struct JsonObject {
    pub fields: Vec<(String, Json)>,
}

pub enum NumberView {
    Integer(int),
    Fraction(Seq<char>),
}

/// A JSON value as a mathematical object.
pub enum JsonView {
    Null,
    Bool(bool),
    Number(NumberView),
    Text(Seq<char>),
    Array(Seq<JsonView>),
    Object(Map<Seq<char>, JsonView>),
}

impl View for Fraction {
    type V = Seq<char>;

    closed spec fn view(&self) -> Seq<char> {
        self.text@
    }
}

impl View for Number {
    type V = NumberView;

    open spec fn view(&self) -> NumberView {
        match *self {
            Number::Unsigned(n) => NumberView::Integer(n as int),
            Number::Signed(n) => NumberView::Integer(n as int),
            Number::Fraction(f) => NumberView::Fraction(f@),
        }
    }
}

pub open spec fn json_view(value: Json) -> JsonView
    decreases value,
{
    match value {
        Json::Null => JsonView::Null,
        Json::Bool(b) => JsonView::Bool(b),
        Json::Number(n) => JsonView::Number(n@),
        Json::Text(s) => JsonView::Text(s@),
        Json::Array(items) => JsonView::Array(array_view(items@)),
        Json::Object(object) => JsonView::Object(fields_view(object.fields@)),
    }
}

pub open spec fn array_view(items: Seq<Json>) -> Seq<JsonView>
    decreases items,
{
    if items.len() == 0 {
        Seq::empty()
    } else {
        array_view(items.drop_last()).push(json_view(items.last()))
    }
}

pub open spec fn fields_view(fields: Seq<(String, Json)>) -> Map<Seq<char>, JsonView>
    decreases fields,
{
    if fields.len() == 0 {
        Map::empty()
    } else {
        fields_view(fields.drop_last()).insert(fields.last().0@, json_view(fields.last().1))
    }
}

impl View for Json {
    type V = JsonView;

    open spec fn view(&self) -> JsonView {
        json_view(*self)
    }
}

impl View for JsonObject {
    type V = Map<Seq<char>, JsonView>;

    open spec fn view(&self) -> Map<Seq<char>, JsonView> {
        fields_view(self.fields@)
    }
}

/// What `map` holds under `name`.
pub open spec fn lookup(map: Map<Seq<char>, JsonView>, name: Seq<char>) -> Option<JsonView> {
    if map.contains_key(name) {
        Some(map[name])
    } else {
        None
    }
}

/// The field `name` of a value: none where the value is no object.
pub open spec fn field(value: JsonView, name: Seq<char>) -> Option<JsonView> {
    match value {
        JsonView::Object(map) => lookup(map, name),
        _ => None,
    }
}

/// The text of a value: none where the value is no string.
pub open spec fn text_of(value: Option<JsonView>) -> Option<Seq<char>> {
    match value {
        Some(JsonView::Text(s)) => Some(s),
        _ => None,
    }
}

/// The field `inner` of the field `outer`.
pub open spec fn nested(value: JsonView, outer: Seq<char>, inner: Seq<char>) -> Option<JsonView> {
    match field(value, outer) {
        Some(v) => field(v, inner),
        None => None,
    }
}

/// Equality of numbers: the two zeros among the fractions are one number.
pub open spec fn same_number(a: NumberView, b: NumberView) -> bool {
    a == b || (is_fraction_zero(a) && is_fraction_zero(b))
}

pub open spec fn is_fraction_zero(n: NumberView) -> bool {
    n == NumberView::Fraction("0.0"@) || n == NumberView::Fraction("-0.0"@)
}

/// Equality of JSON values.
pub open spec fn same_value(a: JsonView, b: JsonView) -> bool
    decreases a,
{
    match (a, b) {
        (JsonView::Null, JsonView::Null) => true,
        (JsonView::Bool(x), JsonView::Bool(y)) => x == y,
        (JsonView::Number(x), JsonView::Number(y)) => same_number(x, y),
        (JsonView::Text(x), JsonView::Text(y)) => x == y,
        (JsonView::Array(x), JsonView::Array(y)) => x.len() == y.len() && forall|i: int|
            0 <= i < x.len() ==> same_value(#[trigger] x[i], y[i]),
        (JsonView::Object(x), JsonView::Object(y)) => x.dom() == y.dom() && forall|k: Seq<char>|
            #[trigger] x.contains_key(k) ==> same_value(x[k], y[k]),
        _ => false,
    }
}

pub proof fn lemma_array_view(items: Seq<Json>)
    ensures
        array_view(items).len() == items.len(),
        forall|i: int| 0 <= i < items.len() ==> #[trigger] array_view(items)[i] == json_view(items[i]),
    decreases items.len(),
{
    if items.len() > 0 {
        lemma_array_view(items.drop_last());
    }
}

/// A name that no field of the list bears is not in the object.
proof fn lemma_absent(fields: Seq<(String, Json)>, name: Seq<char>)
    requires
        forall|i: int| 0 <= i < fields.len() ==> (#[trigger] fields[i]).0@ != name,
    ensures
        !fields_view(fields).contains_key(name),
    decreases fields.len(),
{
    if fields.len() > 0 {
        assert(fields.last() == fields[fields.len() - 1]);
        assert forall|i: int| 0 <= i < fields.drop_last().len() implies (
        #[trigger] fields.drop_last()[i]).0@ != name by {
            assert(fields.drop_last()[i] == fields[i]);
        }
        lemma_absent(fields.drop_last(), name);
    }
}

proof fn lemma_present(fields: Seq<(String, Json)>, i: int)
    requires
        0 <= i < fields.len(),
    ensures
        fields_view(fields).contains_key(fields[i].0@),
    decreases fields.len(),
{
    if i < fields.len() - 1 {
        assert(fields.drop_last()[i] == fields[i]);
        lemma_present(fields.drop_last(), i);
    }
}

/// Dropping one field from the list changes nothing under other names.
proof fn lemma_remove_at(fields: Seq<(String, Json)>, i: int)
    requires
        0 <= i < fields.len(),
    ensures
        fields_view(fields.remove(i)).remove(fields[i].0@) == fields_view(fields).remove(
            fields[i].0@,
        ),
    decreases fields.len(),
{
    let name = fields[i].0@;
    if i == fields.len() - 1 {
        assert(fields.remove(i) =~= fields.drop_last());
    } else {
        assert(fields.remove(i).drop_last() =~= fields.drop_last().remove(i));
        assert(fields.remove(i).last() == fields.last());
        assert(fields.drop_last()[i] == fields[i]);
        lemma_remove_at(fields.drop_last(), i);
        let a = fields_view(fields.drop_last().remove(i));
        let b = fields_view(fields.drop_last());
        let (k, v) = (fields.last().0@, json_view(fields.last().1));
        assert(a.remove(name) == b.remove(name));
        assert(fields_view(fields.remove(i)) == a.insert(k, v));
        assert(fields_view(fields) == b.insert(k, v));
        if k == name {
            assert(a.insert(k, v).remove(name) =~= a.remove(name));
            assert(b.insert(k, v).remove(name) =~= b.remove(name));
        } else {
            assert(a.insert(k, v).remove(name) =~= a.remove(name).insert(k, v));
            assert(b.insert(k, v).remove(name) =~= b.remove(name).insert(k, v));
        }
    }
    assert(fields_view(fields.remove(i)).remove(name) =~= fields_view(fields).remove(name));
}

impl JsonObject {
    pub fn new() -> (r: JsonObject)
        ensures
            r@ == Map::<Seq<char>, JsonView>::empty(),
    {
        JsonObject { fields: Vec::new() }
    }

    /// The value of the field `name`.
    pub fn get<'a>(&'a self, name: &str) -> (r: Option<&'a Json>)
        ensures
            match r {
                Some(v) => lookup(self@, name@) == Some(v@),
                None => lookup(self@, name@) is None,
            },
    {
        let mut i: usize = self.fields.len();
        assert(self.fields@.take(i as int) =~= self.fields@);
        while i > 0
            invariant
                i <= self.fields.len(),
                lookup(self@, name@) == lookup(fields_view(self.fields@.take(i as int)), name@),
            decreases i,
        {
            let ghost head = self.fields@.take(i as int);
            assert(head.drop_last() =~= self.fields@.take(i as int - 1));
            assert(head.last() == self.fields@[i as int - 1]);
            i = i - 1;
            if same_text(&self.fields[i].0, name) {
                return Some(&self.fields[i].1);
            }
        }
        None
    }

    /// Takes the field `name` out of the object.
    pub fn take(&mut self, name: &str) -> (r: Option<Json>)
        ensures
            final(self)@ == old(self)@.remove(name@),
            match r {
                Some(v) => lookup(old(self)@, name@) == Some(v@),
                None => lookup(old(self)@, name@) is None,
            },
    {
        let ghost start = self@;
        let mut taken: Option<Json> = None;
        let mut i: usize = 0;
        while i < self.fields.len()
            invariant
                i <= self.fields.len(),
                self@.remove(name@) == start.remove(name@),
                forall|j: int| 0 <= j < i ==> (#[trigger] self.fields@[j]).0@ != name@,
                lookup(self@, name@) is Some ==> lookup(self@, name@) == lookup(start, name@),
                lookup(self@, name@) is None ==> match taken {
                    Some(v) => lookup(start, name@) == Some(v@),
                    None => lookup(start, name@) is None,
                },
            decreases self.fields.len() - i,
        {
            if same_text(&self.fields[i].0, name) {
                let ghost fields = self.fields@;
                proof {
                    lemma_remove_at(fields, i as int);
                    lemma_present(fields, i as int);
                }
                let field = self.fields.remove(i);
                proof {
                    lemma_lookup_after_remove(fields, i as int);
                }
                taken = Some(field.1);
            } else {
                i = i + 1;
            }
        }
        proof {
            lemma_absent(self.fields@, name@);
            assert(self@.remove(name@) =~= self@);
        }
        taken
    }

    /// Sets the field `name`.
    pub fn insert(&mut self, name: &str, value: Json)
        ensures
            final(self)@ == old(self)@.insert(name@, value@),
    {
        let ghost start = self@;
        let _ = self.take(name);
        let ghost rest = self.fields@;
        self.fields.push((name.to_owned(), value));
        assert(self.fields@.drop_last() =~= rest);
        assert(self@ =~= start.insert(name@, value@));
    }
}

/// Dropping the field at `i` leaves under its name what a later field of
/// that name says, or nothing where no other field bears it.
proof fn lemma_lookup_after_remove(fields: Seq<(String, Json)>, i: int)
    requires
        0 <= i < fields.len(),
        forall|j: int| 0 <= j < i ==> (#[trigger] fields[j]).0@ != fields[i].0@,
    ensures
        ({
            let name = fields[i].0@;
            let rest = fields_view(fields.remove(i));
            if rest.contains_key(name) {
                lookup(rest, name) == lookup(fields_view(fields), name)
            } else {
                lookup(fields_view(fields), name) == Some(json_view(fields[i].1))
            }
        }),
    decreases fields.len(),
{
    let name = fields[i].0@;
    if i == fields.len() - 1 {
        assert(fields.remove(i) =~= fields.drop_last());
        assert forall|j: int| 0 <= j < fields.drop_last().len() implies (
        #[trigger] fields.drop_last()[j]).0@ != name by {
            assert(fields.drop_last()[j] == fields[j]);
        }
        lemma_absent(fields.drop_last(), name);
    } else {
        assert(fields.remove(i).drop_last() =~= fields.drop_last().remove(i));
        assert(fields.remove(i).last() == fields.last());
        assert(fields.drop_last()[i] == fields[i]);
        assert forall|j: int| 0 <= j < i implies (#[trigger] fields.drop_last()[j]).0@
            != fields.drop_last()[i].0@ by {
            assert(fields.drop_last()[j] == fields[j]);
        }
        lemma_lookup_after_remove(fields.drop_last(), i);
    }
}

impl Number {
    pub fn copy(&self) -> (r: Number)
        ensures
            r@ == self@,
    {
        match self {
            Number::Unsigned(n) => Number::Unsigned(*n),
            Number::Signed(n) => Number::Signed(*n),
            Number::Fraction(f) => Number::Fraction(Fraction { text: f.text.clone() }),
        }
    }

    fn is_zero(&self) -> (r: bool)
        ensures
            r == is_fraction_zero(self@),
    {
        match self {
            Number::Fraction(f) => same_text(&f.text, "0.0") || same_text(&f.text, "-0.0"),
            _ => false,
        }
    }

    /// Whether two numbers are equal.
    pub fn same(&self, other: &Number) -> (r: bool)
        ensures
            r == same_number(self@, other@),
    {
        let equal = match (self, other) {
            (Number::Unsigned(x), Number::Unsigned(y)) => *x == *y,
            (Number::Signed(x), Number::Signed(y)) => *x == *y,
            (Number::Unsigned(x), Number::Signed(y)) => *x as i128 == *y as i128,
            (Number::Signed(x), Number::Unsigned(y)) => *x as i128 == *y as i128,
            (Number::Fraction(x), Number::Fraction(y)) => same_text(&x.text, &y.text),
            _ => false,
        };
        equal || (self.is_zero() && other.is_zero())
    }
}

impl Json {
    /// The field `name`: none where this is no object.
    pub fn get<'a>(&'a self, name: &str) -> (r: Option<&'a Json>)
        ensures
            match r {
                Some(v) => field(self@, name@) == Some(v@),
                None => field(self@, name@) is None,
            },
    {
        match self {
            Json::Object(object) => object.get(name),
            _ => None,
        }
    }

    /// The string that the field `name` holds.
    pub fn get_text<'a>(&'a self, name: &str) -> (r: Option<&'a str>)
        ensures
            match r {
                Some(s) => text_of(field(self@, name@)) == Some(s@),
                None => text_of(field(self@, name@)) is None,
            },
    {
        match self.get(name) {
            Some(Json::Text(s)) => Some(s.as_str()),
            _ => None,
        }
    }

    /// Whether the field `name` holds the string `text`.
    pub fn field_is(&self, name: &str, text: &str) -> (r: bool)
        ensures
            r == (text_of(field(self@, name@)) == Some(text@)),
    {
        match self.get_text(name) {
            Some(s) => same_text(s, text),
            None => false,
        }
    }

    /// The field `inner` of the field `outer`.
    pub fn get_nested<'a>(&'a self, outer: &str, inner: &str) -> (r: Option<&'a Json>)
        ensures
            match r {
                Some(v) => nested(self@, outer@, inner@) == Some(v@),
                None => nested(self@, outer@, inner@) is None,
            },
    {
        match self.get(outer) {
            Some(v) => v.get(inner),
            None => None,
        }
    }

    /// A string value.
    pub fn text(s: &str) -> (r: Json)
        ensures
            r@ == JsonView::Text(s@),
    {
        Json::Text(s.to_owned())
    }

    /// A value of its own that equals this one.
    pub fn copy(&self) -> (r: Json)
        ensures
            r@ == self@,
        decreases *self,
    {
        match self {
            Json::Null => Json::Null,
            Json::Bool(b) => Json::Bool(*b),
            Json::Number(n) => Json::Number(n.copy()),
            Json::Text(s) => Json::Text(s.clone()),
            Json::Array(items) => {
                let mut copies: Vec<Json> = Vec::new();
                proof {
                    lemma_array_view(items@);
                }
                let mut i: usize = 0;
                while i < items.len()
                    invariant
                        i <= items.len(),
                        self is Array && self->Array_0 == *items,
                        array_view(items@).len() == items.len(),
                        forall|j: int|
                            0 <= j < items.len() ==> #[trigger] array_view(items@)[j] == json_view(
                                items@[j],
                            ),
                        array_view(copies@) == array_view(items@).take(i as int),
                    decreases items.len() - i,
                {
                    let ghost before = copies@;
                    copies.push(items[i].copy());
                    assert(copies@.drop_last() =~= before);
                    assert(array_view(items@).take(i as int + 1) =~= array_view(items@).take(
                        i as int,
                    ).push(array_view(items@)[i as int]));
                    i = i + 1;
                }
                assert(array_view(items@).take(i as int) =~= array_view(items@));
                Json::Array(copies)
            },
            Json::Object(object) => {
                let mut copies: Vec<(String, Json)> = Vec::new();
                assert(object.fields@.take(0) =~= Seq::empty());
                let mut i: usize = 0;
                while i < object.fields.len()
                    invariant
                        i <= object.fields.len(),
                        self is Object && self->Object_0 == *object,
                        fields_view(copies@) == fields_view(object.fields@.take(i as int)),
                    decreases object.fields.len() - i,
                {
                    let ghost before = copies@;
                    let ghost fields = object.fields@;
                    let name = object.fields[i].0.clone();
                    copies.push((name, object.fields[i].1.copy()));
                    assert(copies@.drop_last() =~= before);
                    assert(fields.take(i as int + 1).drop_last() =~= fields.take(i as int));
                    i = i + 1;
                }
                assert(object.fields@.take(i as int) =~= object.fields@);
                Json::Object(JsonObject { fields: copies })
            },
        }
    }

    /// Whether two values are equal.
    pub fn same(&self, other: &Json) -> (r: bool)
        ensures
            r == same_value(self@, other@),
        decreases self@,
    {
        match (self, other) {
            (Json::Null, Json::Null) => true,
            (Json::Bool(x), Json::Bool(y)) => *x == *y,
            (Json::Number(x), Json::Number(y)) => x.same(y),
            (Json::Text(x), Json::Text(y)) => same_text(x, y),
            (Json::Array(x), Json::Array(y)) => {
                proof {
                    lemma_array_view(x@);
                    lemma_array_view(y@);
                }
                if x.len() != y.len() {
                    return false;
                }
                let ghost a = array_view(x@);
                let ghost b = array_view(y@);
                let mut i: usize = 0;
                while i < x.len()
                    invariant
                        i <= x.len(),
                        x.len() == y.len(),
                        a == array_view(x@),
                        b == array_view(y@),
                        self@ is Array && self@->Array_0 == a,
                        other@ is Array && other@->Array_0 == b,
                        a.len() == x.len(),
                        b.len() == y.len(),
                        forall|j: int| 0 <= j < x.len() ==> #[trigger] a[j] == json_view(x@[j]),
                        forall|j: int| 0 <= j < y.len() ==> #[trigger] b[j] == json_view(y@[j]),
                        forall|j: int| 0 <= j < i ==> same_value(#[trigger] a[j], b[j]),
                    decreases x.len() - i,
                {
                    assert(a[i as int] == x@[i as int]@);
                    assert(b[i as int] == y@[i as int]@);
                    if !x[i].same(&y[i]) {
                        assert(!same_value(a[i as int], b[i as int]));
                        return false;
                    }
                    i = i + 1;
                }
                true
            },
            (Json::Object(x), Json::Object(y)) => {
                let mut i: usize = 0;
                while i < x.fields.len()
                    invariant
                        i <= x.fields.len(),
                        self@ is Object && self@->Object_0 == x@,
                        other@ is Object && other@->Object_0 == y@,
                        forall|j: int|
                            0 <= j < i ==> y@.contains_key(#[trigger] x.fields@[j].0@) && same_value(
                                x@[x.fields@[j].0@],
                                y@[x.fields@[j].0@],
                            ),
                    decreases x.fields.len() - i,
                {
                    let name = x.fields[i].0.as_str();
                    proof {
                        lemma_present(x.fields@, i as int);
                    }
                    match (x.get(name), y.get(name)) {
                        (Some(v), Some(w)) => {
                            if !v.same(w) {
                                assert(x@.contains_key(name@) && !same_value(x@[name@], y@[name@]));
                                return false;
                            }
                        },
                        _ => {
                            assert(x@.dom().contains(name@) && !y@.dom().contains(name@));
                            return false;
                        },
                    }
                    i = i + 1;
                }
                let mut i: usize = 0;
                while i < y.fields.len()
                    invariant
                        i <= y.fields.len(),
                        self@ is Object && self@->Object_0 == x@,
                        other@ is Object && other@->Object_0 == y@,
                        forall|j: int|
                            0 <= j < x.fields.len() ==> y@.contains_key(
                                #[trigger] x.fields@[j].0@,
                            ) && same_value(x@[x.fields@[j].0@], y@[x.fields@[j].0@]),
                        forall|j: int| 0 <= j < i ==> x@.contains_key(#[trigger] y.fields@[j].0@),
                    decreases y.fields.len() - i,
                {
                    let name = y.fields[i].0.as_str();
                    proof {
                        lemma_present(y.fields@, i as int);
                    }
                    if x.get(name).is_none() {
                        assert(y@.dom().contains(name@) && !x@.dom().contains(name@));
                        return false;
                    }
                    i = i + 1;
                }
                proof {
                    assert forall|k: Seq<char>| #[trigger] x@.contains_key(k) implies y@.contains_key(
                        k,
                    ) && same_value(x@[k], y@[k]) by {
                        lemma_named(x.fields@, k);
                    }
                    assert forall|k: Seq<char>| y@.contains_key(k) implies x@.contains_key(k) by {
                        lemma_named(y.fields@, k);
                    }
                    assert(x@.dom() =~= y@.dom());
                }
                true
            },
            _ => false,
        }
    }
}

/// Every name of an object stands in its list of fields.
proof fn lemma_named(fields: Seq<(String, Json)>, name: Seq<char>)
    requires
        fields_view(fields).contains_key(name),
    ensures
        exists|i: int| 0 <= i < fields.len() && (#[trigger] fields[i]).0@ == name,
    decreases fields.len(),
{
    if forall|i: int| 0 <= i < fields.len() ==> (#[trigger] fields[i]).0@ != name {
        lemma_absent(fields, name);
    }
}

/// A value as `serde_json` holds it.
#[verifier::external_type_specification]
#[verifier::external_body]
pub struct ExValue(serde_json::Value);

/// The outermost layer of a `serde_json` value: which variant it is, and what
/// that variant holds.
pub enum Layer {
    Null,
    Bool(bool),
    Number(Number),
    Text(String),
    Array(Vec<serde_json::Value>),
    Object(Vec<(String, serde_json::Value)>),
}

/// What a `serde_json` value holds.
pub uninterp spec fn value_json(value: serde_json::Value) -> JsonView;

/// What `serde_json` reads from a JSON text: nothing where it refuses the text.
pub uninterp spec fn parsed_json(bytes: Seq<u8>) -> Option<JsonView>;

/// The compact text that `serde_json` prints for a value.
pub uninterp spec fn json_text(value: JsonView) -> Seq<char>;

pub open spec fn layer_fields(fields: Seq<(String, serde_json::Value)>) -> Map<Seq<char>, JsonView>
    decreases fields.len(),
{
    if fields.len() == 0 {
        Map::empty()
    } else {
        layer_fields(fields.drop_last()).insert(fields.last().0@, value_json(fields.last().1))
    }
}

pub open spec fn distinct_names(fields: Seq<(String, serde_json::Value)>) -> bool {
    forall|i: int, j: int|
        0 <= i < j < fields.len() ==> (#[trigger] fields[i]).0@ != (#[trigger] fields[j]).0@
}

pub open spec fn layer_view(layer: Layer) -> JsonView {
    match layer {
        Layer::Null => JsonView::Null,
        Layer::Bool(b) => JsonView::Bool(b),
        Layer::Number(n) => JsonView::Number(n@),
        Layer::Text(s) => JsonView::Text(s@),
        Layer::Array(items) => JsonView::Array(
            items@.map_values(|v: serde_json::Value| value_json(v)),
        ),
        Layer::Object(fields) => JsonView::Object(layer_fields(fields@)),
    }
}

/// Matches on the variants of `serde_json::Value` and moves out what the
/// variant holds: the layer and the value hold the same JSON, and no two
/// fields of an object bear one name.
#[verifier::external_body]
fn open_value(value: serde_json::Value) -> (r: Layer)
    ensures
        layer_view(r) == value_json(value),
        r matches Layer::Object(fields) ==> distinct_names(fields@),
{
    match value {
        serde_json::Value::Null => Layer::Null,
        serde_json::Value::Bool(b) => Layer::Bool(b),
        serde_json::Value::Number(n) => Layer::Number(match (n.as_u64(), n.as_i64()) {
            (Some(u), _) => Number::Unsigned(u),
            (None, Some(i)) => Number::Signed(i),
            (None, None) => Number::Fraction(Fraction { text: n.to_string() }),
        }),
        serde_json::Value::String(s) => Layer::Text(s),
        serde_json::Value::Array(items) => Layer::Array(items),
        serde_json::Value::Object(fields) => Layer::Object(fields.into_iter().collect()),
    }
}

/// Builds the variant of `serde_json::Value` that the layer names: value and
/// layer hold the same JSON. Where a name stands twice among the fields, the
/// last one counts, as when `serde_json::Map` is collected.
#[verifier::external_body]
fn close_value(layer: Layer) -> (r: serde_json::Value)
    ensures
        value_json(r) == layer_view(layer),
{
    match layer {
        Layer::Null => serde_json::Value::Null,
        Layer::Bool(b) => serde_json::Value::Bool(b),
        Layer::Number(Number::Unsigned(n)) => n.into(),
        Layer::Number(Number::Signed(n)) => n.into(),
        Layer::Number(Number::Fraction(f)) => {
            f.text.parse().ok().and_then(serde_json::Number::from_f64).into()
        },
        Layer::Text(s) => serde_json::Value::String(s),
        Layer::Array(items) => serde_json::Value::Array(items),
        Layer::Object(fields) => serde_json::Value::Object(fields.into_iter().collect()),
    }
}

/// Whether a value nests no deeper than `depth` arrays and objects.
pub open spec fn nests_within(value: JsonView, depth: nat) -> bool
    decreases value,
{
    match value {
        JsonView::Array(items) => depth > 0 && forall|i: int|
            0 <= i < items.len() ==> nests_within(#[trigger] items[i], (depth - 1) as nat),
        JsonView::Object(map) => depth > 0 && forall|k: Seq<char>| #[trigger]
            map.contains_key(k) ==> nests_within(map[k], (depth - 1) as nat),
        _ => true,
    }
}

/// Whether a value holds no fraction.
pub open spec fn is_whole(value: JsonView) -> bool
    decreases value,
{
    match value {
        JsonView::Number(n) => n is Integer,
        JsonView::Array(items) => forall|i: int|
            0 <= i < items.len() ==> is_whole(#[trigger] items[i]),
        JsonView::Object(map) => forall|k: Seq<char>| #[trigger]
            map.contains_key(k) ==> is_whole(map[k]),
        _ => true,
    }
}

/// How deep a JSON text that `serde_json` reads may nest.
pub open spec fn read_depth() -> nat {
    127
}

/// `serde_json::from_slice`: the outcome rests on the bytes alone, and what is
/// read nests no deeper than the reader's limit.
#[verifier::external_body]
fn read_value(bytes: &[u8]) -> (r: Option<serde_json::Value>)
    ensures
        match r {
            Some(v) => parsed_json(bytes@) == Some(value_json(v)) && nests_within(
                value_json(v),
                read_depth(),
            ),
            None => parsed_json(bytes@) is None,
        },
{
    serde_json::from_slice(bytes).ok()
}

/// Whether a value nests no deeper than `depth` arrays and objects, and holds
/// no fraction.
pub open spec fn prints_back(value: JsonView, depth: nat) -> bool
    decreases value,
{
    match value {
        JsonView::Number(n) => n is Integer,
        JsonView::Array(items) => depth > 0 && forall|i: int|
            0 <= i < items.len() ==> prints_back(#[trigger] items[i], (depth - 1) as nat),
        JsonView::Object(map) => depth > 0 && forall|k: Seq<char>| #[trigger]
            map.contains_key(k) ==> prints_back(map[k], (depth - 1) as nat),
        _ => true,
    }
}

/// What nests no deeper and holds no fraction is read back.
pub proof fn lemma_prints_back(value: JsonView, depth: nat)
    requires
        nests_within(value, depth),
        is_whole(value),
    ensures
        prints_back(value, depth),
    decreases value,
{
    match value {
        JsonView::Array(items) => {
            assert forall|i: int| 0 <= i < items.len() implies prints_back(
                #[trigger] items[i],
                (depth - 1) as nat,
            ) by {
                lemma_prints_back(items[i], (depth - 1) as nat);
            }
        },
        JsonView::Object(map) => {
            assert forall|k: Seq<char>| #[trigger] map.contains_key(k) implies prints_back(
                map[k],
                (depth - 1) as nat,
            ) by {
                lemma_prints_back(map[k], (depth - 1) as nat);
            }
        },
        _ => {},
    }
}

/// `serde_json::to_string`: the text rests on what the value holds alone. It
/// holds no control character, since those are escaped in strings and the
/// compact form writes none between them; and `serde_json::from_slice` reads
/// the value back from it, as far as its limit on nesting goes. Of fractions
/// that is not said: reading rounds them.
#[verifier::external_body]
fn print_value(value: &serde_json::Value) -> (r: String)
    ensures
        r@ == json_text(value_json(*value)),
        forall|i: int| 0 <= i < r@.len() ==> #[trigger] r@[i] >= ' ',
        prints_back(value_json(*value), read_depth()) ==> parsed_json(encode_utf8(r@)) == Some(
            value_json(*value),
        ),
{
    serde_json::to_string(value).unwrap_or_default()
}

fn json_of_value(value: serde_json::Value) -> (r: Json)
    ensures
        r@ == value_json(value),
    decreases value_json(value),
{
    let ghost whole = value_json(value);
    match open_value(value) {
        Layer::Null => Json::Null,
        Layer::Bool(b) => Json::Bool(b),
        Layer::Number(n) => Json::Number(n),
        Layer::Text(s) => Json::Text(s),
        Layer::Array(items) => {
            let ghost views = items@.map_values(|v: serde_json::Value| value_json(v));
            let mut r: Vec<Json> = Vec::new();
            for item in it: items
                invariant
                    it.seq() == items@,
                    whole == value_json(value),
                    whole is Array && whole->Array_0 == views,
                    views == items@.map_values(|v: serde_json::Value| value_json(v)),
                    array_view(r@) == views.take(it.index() as int),
            {
                let ghost before = r@;
                assert(views[it.index() as int] == value_json(item));
                r.push(json_of_value(item));
                assert(r@.drop_last() =~= before);
                assert(views.take(it.index() as int + 1) =~= views.take(it.index() as int).push(
                    views[it.index() as int],
                ));
            }
            assert(views.take(views.len() as int) =~= views);
            Json::Array(r)
        },
        Layer::Object(fields) => {
            let mut r: Vec<(String, Json)> = Vec::new();
            assert(fields@.take(0) =~= Seq::empty());
            for entry in it: fields
                invariant
                    it.seq() == fields@,
                    whole == value_json(value),
                    whole is Object && whole->Object_0 == layer_fields(fields@),
                    distinct_names(fields@),
                    fields_view(r@) == layer_fields(fields@.take(it.index() as int)),
            {
                let ghost before = r@;
                let ghost n = it.index() as int;
                proof {
                    lemma_layer_field(fields@, n);
                    assert(fields@.take(n + 1).drop_last() =~= fields@.take(n));
                    assert(fields@[n] == entry);
                }
                r.push((entry.0, json_of_value(entry.1)));
                assert(r@.drop_last() =~= before);
            }
            assert(fields@.take(fields@.len() as int) =~= fields@);
            Json::Object(JsonObject { fields: r })
        },
    }
}

/// A field that shares its name with no other is in the object as it stands.
proof fn lemma_layer_field(fields: Seq<(String, serde_json::Value)>, i: int)
    requires
        0 <= i < fields.len(),
        distinct_names(fields),
    ensures
        layer_fields(fields).contains_key(fields[i].0@),
        layer_fields(fields)[fields[i].0@] == value_json(fields[i].1),
    decreases fields.len(),
{
    if i < fields.len() - 1 {
        assert(fields.drop_last()[i] == fields[i]);
        assert(fields[i].0@ != fields[fields.len() - 1].0@);
        assert(distinct_names(fields.drop_last())) by {
            assert forall|j: int, k: int| 0 <= j < k < fields.len() - 1 implies (
            #[trigger] fields.drop_last()[j]).0@ != (#[trigger] fields.drop_last()[k]).0@ by {
                assert(fields[j].0@ != fields[k].0@);
            }
        }
        lemma_layer_field(fields.drop_last(), i);
    }
}

fn value_of_json(json: &Json) -> (r: serde_json::Value)
    ensures
        value_json(r) == json@,
    decreases *json,
{
    match json {
        Json::Null => close_value(Layer::Null),
        Json::Bool(b) => close_value(Layer::Bool(*b)),
        Json::Number(n) => close_value(Layer::Number(n.copy())),
        Json::Text(s) => close_value(Layer::Text(s.clone())),
        Json::Array(items) => {
            let mut values: Vec<serde_json::Value> = Vec::new();
            proof {
                lemma_array_view(items@);
            }
            let mut i: usize = 0;
            while i < items.len()
                invariant
                    i <= items.len(),
                    json is Array && json->Array_0 == *items,
                    values.len() == i,
                    forall|j: int|
                        0 <= j < i ==> value_json(#[trigger] values@[j]) == json_view(items@[j]),
                decreases items.len() - i,
            {
                values.push(value_of_json(&items[i]));
                i = i + 1;
            }
            assert(values@.map_values(|v: serde_json::Value| value_json(v)) =~= array_view(items@));
            close_value(Layer::Array(values))
        },
        Json::Object(object) => {
            let mut values: Vec<(String, serde_json::Value)> = Vec::new();
            assert(object.fields@.take(0) =~= Seq::empty());
            let mut i: usize = 0;
            while i < object.fields.len()
                invariant
                    i <= object.fields.len(),
                    json is Object && json->Object_0 == *object,
                    layer_fields(values@) == fields_view(object.fields@.take(i as int)),
                decreases object.fields.len() - i,
            {
                let ghost before = values@;
                let value = value_of_json(&object.fields[i].1);
                values.push((object.fields[i].0.clone(), value));
                assert(values@.drop_last() =~= before);
                assert(object.fields@.take(i as int + 1).drop_last() =~= object.fields@.take(
                    i as int,
                ));
                i = i + 1;
            }
            assert(object.fields@.take(i as int) =~= object.fields@);
            close_value(Layer::Object(values))
        },
    }
}

/// Reads a JSON text.
pub fn parse_json(bytes: &[u8]) -> (r: Option<Json>)
    ensures
        match r {
            Some(v) => parsed_json(bytes@) == Some(v@) && nests_within(v@, read_depth()),
            None => parsed_json(bytes@) is None,
        },
{
    match read_value(bytes) {
        Some(value) => Some(json_of_value(value)),
        None => None,
    }
}

/// Prints a value as compact JSON text: one line, from which the value is read
/// back.
pub fn encode_json(value: &Json) -> (r: String)
    ensures
        r@ == json_text(value@),
        forall|i: int| 0 <= i < r@.len() ==> #[trigger] r@[i] >= ' ',
        prints_back(value@, read_depth()) ==> parsed_json(encode_utf8(r@)) == Some(value@),
{
    print_value(&value_of_json(value))
}

} // verus!
