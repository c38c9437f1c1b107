//! Configuration documents.

use vstd::prelude::*;
use crate::ordered_map::same_text;

verus! {

/// A number of a document. Its text is what tells numbers apart; `floor`
/// is the greatest whole number not above it, and `integral` says whether it
/// is whole itself.
#[derive(Debug)]
pub struct Number {
    pub text: String,
    pub floor: i64,
    pub integral: bool,
}

/// The decimal numeral of a whole number, with a `-` before a negative
/// one.
pub open spec fn signed_decimal(n: int) -> Seq<char> {
    if n < 0 {
        seq!['-'] + crate::version::decimal((-n) as nat)
    } else {
        crate::version::decimal(n as nat)
    }
}

impl Number {
    /// The whole number `n`.
    pub fn whole(n: i64) -> (r: Number)
        ensures
            r.floor == n,
            r.integral,
            r.text@ == signed_decimal(n as int),
    {
        let mut out: Vec<char> = Vec::new();
        if n < 0 {
            out.push('-');
            let magnitude: u64 = if n == i64::MIN {
                0x8000_0000_0000_0000u64
            } else {
                (-n) as u64
            };
            crate::version::push_decimal(magnitude, &mut out);
        } else {
            crate::version::push_decimal(n as u64, &mut out);
        }
        assert(out@ =~= signed_decimal(n as int));
        Number { text: crate::text::string_of(&out), floor: n, integral: true }
    }
}

impl Clone for Number {
    fn clone(&self) -> (r: Number)
        ensures
            r == *self,
    {
        Number { text: self.text.clone(), floor: self.floor, integral: self.integral }
    }
}

/// A document, or a part of one.
#[derive(Debug)]
pub enum Json {
    Null,
    Bool(bool),
    Number(Number),
    String(String),
    Array(Vec<Json>),
    Object(Vec<Property>),
}

/// One property of an object.
#[derive(Debug)]
pub struct Property {
    pub name: String,
    pub value: Json,
}

/// A configuration: the properties of the document's top-level object, in
/// their order. Where a name occurs twice, the first occurrence counts.
pub type Config = Vec<Property>;

/// A document as a plain value.
pub enum JsonView {
    Null,
    Bool(bool),
    Number { text: Seq<char>, floor: i64, integral: bool },
    String(Seq<char>),
    Array(Seq<JsonView>),
    Object(Seq<(Seq<char>, JsonView)>),
}

/// The plain value of a document.
pub open spec fn json_view(j: Json) -> JsonView
    decreases j,
{
    match j {
        Json::Null => JsonView::Null,
        Json::Bool(b) => JsonView::Bool(b),
        Json::Number(n) => JsonView::Number { text: n.text@, floor: n.floor, integral: n.integral },
        Json::String(s) => JsonView::String(s@),
        Json::Array(items) => JsonView::Array(
            Seq::new(
                items@.len(),
                |i: int|
                    if 0 <= i < items@.len() {
                        json_view(items@[i])
                    } else {
                        JsonView::Null
                    },
            ),
        ),
        Json::Object(props) => JsonView::Object(
            Seq::new(
                props@.len(),
                |i: int|
                    if 0 <= i < props@.len() {
                        (props@[i].name@, json_view(props@[i].value))
                    } else {
                        (Seq::empty(), JsonView::Null)
                    },
            ),
        ),
    }
}

impl View for Json {
    type V = JsonView;

    open spec fn view(&self) -> JsonView {
        json_view(*self)
    }
}

/// The items of a list as plain values.
pub open spec fn items_view(items: Seq<Json>) -> Seq<JsonView> {
    Seq::new(items.len(), |i: int| items[i]@)
}

/// The properties of a configuration as plain values.
pub open spec fn config_view(props: Seq<Property>) -> Seq<(Seq<char>, JsonView)> {
    Seq::new(props.len(), |i: int| (props[i].name@, props[i].value@))
}

/// Configurations by package, as plain values.
pub open spec fn documents(configs: Seq<(Seq<char>, Vec<Property>)>) -> Seq<
    (Seq<char>, Seq<(Seq<char>, JsonView)>),
> {
    Seq::new(configs.len(), |i: int| (configs[i].0, config_view(configs[i].1@)))
}

/// The value of the first property named `name`, if there is one.
pub open spec fn property(props: Seq<(Seq<char>, JsonView)>, name: Seq<char>) -> Option<JsonView> {
    crate::ordered_map::lookup(props, name)
}

/// What kind of value this is.
pub trait TypeOf {
    spec fn kind_name(&self) -> &'static str;

    /// The name of the kind of the value.
    fn type_of(&self) -> (name: &'static str)
        ensures
            name == self.kind_name(),
    ;
}

/// The name of the kind of a document.
pub open spec fn kind_of(v: JsonView) -> &'static str {
    match v {
        JsonView::Array(_) => "list",
        JsonView::Bool(_) => "boolean",
        JsonView::Null => "null",
        JsonView::Number { .. } => "number",
        JsonView::Object(_) => "object",
        JsonView::String(_) => "string",
    }
}

impl TypeOf for Json {
    open spec fn kind_name(&self) -> &'static str {
        kind_of(self@)
    }

    fn type_of(&self) -> (name: &'static str) {
        match self {
            Json::Array(_) => "list",
            Json::Bool(_) => "boolean",
            Json::Null => "null",
            Json::Number(_) => "number",
            Json::Object(_) => "object",
            Json::String(_) => "string",
        }
    }
}

/// Are two documents the same? Numbers are the same when their texts are,
/// lists when they hold the same values in the same order, and objects when
/// they have as many properties and every property of the first is one of
/// the second, with the same value.
pub open spec fn same_json(a: JsonView, b: JsonView) -> bool
    decreases a,
{
    match a {
        JsonView::Null => b is Null,
        JsonView::Bool(x) => b matches JsonView::Bool(y) && x == y,
        JsonView::Number { text, .. } => b is Number && b->text == text,
        JsonView::String(x) => b matches JsonView::String(y) && x == y,
        JsonView::Array(x) => b matches JsonView::Array(y) && x.len() == y.len() && forall|i: int|
            0 <= i < x.len() ==> same_json(#[trigger] x[i], y[i]),
        JsonView::Object(x) => b matches JsonView::Object(y) && x.len() == y.len() && forall|
            i: int,
        |
            0 <= i < x.len() ==> property(y, (#[trigger] x[i]).0) is Some && same_json(
                x[i].1,
                property(y, x[i].0)->0,
            ),
    }
}

/// The place of the first property named `name`.
pub fn find_property(props: &Vec<Property>, name: &str) -> (r: Option<usize>)
    ensures
        r is Some <==> crate::ordered_map::has_key(config_view(props@), name@),
        r matches Some(i) ==> i == crate::ordered_map::position(config_view(props@), name@) && i
            < props@.len(),
{
    let ghost view = config_view(props@);
    proof {
        crate::ordered_map::position_finds(view, name@);
    }
    let mut i: usize = 0;
    while i < props.len()
        invariant
            i <= props@.len(),
            view == config_view(props@),
            forall|j: int| 0 <= j < i ==> (#[trigger] view[j]).0 != name@,
            0 <= crate::ordered_map::position(view, name@) <= view.len(),
            crate::ordered_map::has_key(view, name@) <==> crate::ordered_map::position(view, name@)
                < view.len(),
            crate::ordered_map::position(view, name@) < view.len() ==> view[crate::ordered_map::position(
                view,
                name@,
            )].0 == name@,
            forall|j: int|
                0 <= j < crate::ordered_map::position(view, name@) ==> (#[trigger] view[j]).0
                    != name@,
        decreases props@.len() - i,
    {
        if same_text(props[i].name.as_str(), name) {
            assert(view[i as int].0 == name@);
            return Some(i);
        }
        i = i + 1;
    }
    None
}

/// The value of the first property named `name`.
pub fn get_property<'a>(props: &'a Vec<Property>, name: &str) -> (r: Option<&'a Json>)
    ensures
        r is Some <==> property(config_view(props@), name@) is Some,
        r matches Some(v) ==> Some(v@) == property(config_view(props@), name@),
{
    match find_property(props, name) {
        Some(i) => {
            assert(config_view(props@)[i as int].1 == props@[i as int].value@);
            Some(&props[i].value)
        },
        None => None,
    }
}

impl Json {
    /// The properties of an object as plain values are those of its
    /// properties.
    pub proof fn object_view(props: Vec<Property>)
        ensures
            Json::Object(props)@ == JsonView::Object(config_view(props@)),
    {
        assert(Json::Object(props)@->Object_0 =~= config_view(props@));
    }

    /// The items of a list as plain values are those of its items.
    pub proof fn array_view(items: Vec<Json>)
        ensures
            Json::Array(items)@ == JsonView::Array(items_view(items@)),
    {
        assert(Json::Array(items)@->Array_0 =~= items_view(items@));
    }

    /// Is `self` the same document as `other`?
    #[verifier::loop_isolation(false)]
    pub fn equals(&self, other: &Json) -> (b: bool)
        ensures
            b == same_json(self@, other@),
        decreases self,
    {
        match self {
            Json::Null => match other {
                Json::Null => true,
                _ => false,
            },
            Json::Bool(x) => match other {
                Json::Bool(y) => *x == *y,
                _ => false,
            },
            Json::Number(x) => match other {
                Json::Number(y) => x.text == y.text,
                _ => false,
            },
            Json::String(x) => match other {
                Json::String(y) => *x == *y,
                _ => false,
            },
            Json::Array(x) => match other {
                Json::Array(y) => {
                    if x.len() != y.len() {
                        return false;
                    }
                    let ghost xs = self@->Array_0;
                    let ghost ys = other@->Array_0;
                    let mut i: usize = 0;
                    while i < x.len()
                        invariant
                            i <= x@.len(),
                            x@.len() == y@.len(),
                            self == Json::Array(*x),
                            other == Json::Array(*y),
                            xs == self@->Array_0,
                            ys == other@->Array_0,
                            forall|j: int| 0 <= j < i ==> same_json(#[trigger] xs[j], ys[j]),
                        decreases x@.len() - i,
                    {
                        let item = &x[i];
                        proof {
                            vstd::std_specs::vec::axiom_vec_index_decreases(*x, i as int);
                        }
                        if !item.equals(&y[i]) {
                            assert(!same_json(xs[i as int], ys[i as int]));
                            return false;
                        }
                        i = i + 1;
                    }
                    true
                },
                _ => false,
            },
            Json::Object(x) => match other {
                Json::Object(y) => {
                    if x.len() != y.len() {
                        return false;
                    }
                    let ghost xs = self@->Object_0;
                    let ghost ys = other@->Object_0;
                    proof {
                        Json::object_view(*y);
                        Json::object_view(*x);
                    }
                    let mut i: usize = 0;
                    while i < x.len()
                        invariant
                            i <= x@.len(),
                            x@.len() == y@.len(),
                            self == Json::Object(*x),
                            other == Json::Object(*y),
                            xs == config_view(x@),
                            ys == config_view(y@),
                            forall|j: int|
                                0 <= j < i ==> property(ys, (#[trigger] xs[j]).0) is Some
                                    && same_json(xs[j].1, property(ys, xs[j].0)->0),
                        decreases x@.len() - i,
                    {
                        let prop = &x[i];
                        proof {
                            vstd::std_specs::vec::axiom_vec_index_decreases(*x, i as int);
                        }
                        match get_property(y, prop.name.as_str()) {
                            Some(v) => {
                                if !prop.value.equals(v) {
                                    assert(!same_json(xs[i as int].1, property(ys, xs[i as int].0)->0));
                                    return false;
                                }
                            },
                            None => {
                                assert(property(ys, xs[i as int].0) is None);
                                return false;
                            },
                        }
                        i = i + 1;
                    }
                    true
                },
                _ => false,
            },
        }
    }
}

impl Clone for Json {
    #[verifier::loop_isolation(false)]
    fn clone(&self) -> (r: Json)
        ensures
            r@ == self@,
        decreases self,
    {
        match self {
            Json::Null => Json::Null,
            Json::Bool(b) => Json::Bool(*b),
            Json::Number(n) => Json::Number(n.clone()),
            Json::String(s) => Json::String(s.clone()),
            Json::Array(items) => {
                let mut copy: Vec<Json> = Vec::new();
                let mut i: usize = 0;
                while i < items.len()
                    invariant
                        i <= items@.len(),
                        self == Json::Array(*items),
                        copy@.len() == i,
                        forall|j: int| 0 <= j < i ==> (#[trigger] copy@[j])@ == items@[j]@,
                    decreases items@.len() - i,
                {
                    let item = &items[i];
                    proof {
                        vstd::std_specs::vec::axiom_vec_index_decreases(*items, i as int);
                    }
                    copy.push(item.clone());
                    i = i + 1;
                }
                let r = Json::Array(copy);
                assert(r@->Array_0 =~= self@->Array_0);
                r
            },
            Json::Object(props) => {
                let mut copy: Vec<Property> = Vec::new();
                let mut i: usize = 0;
                while i < props.len()
                    invariant
                        i <= props@.len(),
                        self == Json::Object(*props),
                        copy@.len() == i,
                        forall|j: int|
                            0 <= j < i ==> (#[trigger] copy@[j]).name@ == props@[j].name@
                                && copy@[j].value@ == props@[j].value@,
                    decreases props@.len() - i,
                {
                    let prop = &props[i];
                    proof {
                        vstd::std_specs::vec::axiom_vec_index_decreases(*props, i as int);
                    }
                    copy.push(Property { name: prop.name.clone(), value: prop.value.clone() });
                    i = i + 1;
                }
                let r = Json::Object(copy);
                assert(r@->Object_0 =~= self@->Object_0);
                r
            },
        }
    }
}

/// A copy of a configuration.
pub fn clone_config(props: &Vec<Property>) -> (copy: Vec<Property>)
    ensures
        config_view(copy@) == config_view(props@),
{
    let mut copy: Vec<Property> = Vec::new();
    let mut i: usize = 0;
    while i < props.len()
        invariant
            i <= props@.len(),
            copy@.len() == i,
            forall|j: int|
                0 <= j < i ==> (#[trigger] copy@[j]).name@ == props@[j].name@ && copy@[j].value@
                    == props@[j].value@,
        decreases props@.len() - i,
    {
        copy.push(Property { name: props[i].name.clone(), value: props[i].value.clone() });
        i = i + 1;
    }
    assert(config_view(copy@) =~= config_view(props@));
    copy
}

/// Do two configurations hold the same properties with the same values?
pub fn same_configs(a: &Vec<Property>, b: &Vec<Property>) -> (r: bool)
    ensures
        r == same_json(JsonView::Object(config_view(a@)), JsonView::Object(config_view(b@))),
{
    if a.len() != b.len() {
        return false;
    }
    let ghost xs = config_view(a@);
    let ghost ys = config_view(b@);
    let mut i: usize = 0;
    while i < a.len()
        invariant
            i <= a@.len(),
            a@.len() == b@.len(),
            xs == config_view(a@),
            ys == config_view(b@),
            forall|j: int|
                0 <= j < i ==> property(ys, (#[trigger] xs[j]).0) is Some && same_json(
                    xs[j].1,
                    property(ys, xs[j].0)->0,
                ),
        decreases a@.len() - i,
    {
        match get_property(b, a[i].name.as_str()) {
            Some(v) => {
                if !a[i].value.equals(v) {
                    assert(!same_json(xs[i as int].1, property(ys, xs[i as int].0)->0));
                    return false;
                }
            },
            None => {
                assert(property(ys, xs[i as int].0) is None);
                return false;
            },
        }
        i = i + 1;
    }
    true
}

} // verus!
