//! The schema of a configuration, and what it means for a document to
//! match it.

use vstd::prelude::*;
use crate::config::{
    here, in_range, under, MatchError, MatchErrorView, NoMatchView, NoMatchWithPath, NumRange,
    NumberView,
};
use crate::config::value::{
    config_view, get_property, items_view, kind_of, property, same_json, Json, JsonView, Number,
    Property, TypeOf,
};
use crate::id::{Id, PackageId};
use crate::ordered_map::same_text;
use crate::text::{clone_strings, contains_text, texts};
use crate::version::{decimal, push_decimal};

verus! {

/// A pattern that the text of a string has to match.
#[derive(Debug)]
pub struct Pattern {
    pub pattern: String,
    pub description: String,
}

/// Does the text match the pattern? `None` where the pattern is no regular
/// expression.
pub uninterp spec fn pattern_accepts(pattern: Seq<char>, text: Seq<char>) -> Option<bool>;

/// `Regex::new` and `Regex::is_match`: whether `text` matches `pattern`,
/// which depends on the two alone; `None` where the pattern does not
/// compile.
#[verifier::external_body]
pub(crate) fn pattern_match(pattern: &str, text: &str) -> (r: Option<bool>)
    ensures
        r == pattern_accepts(pattern@, text@),
{
    regex::Regex::new(pattern).ok().map(|re| re.is_match(text))
}

/// How the default of a string comes about.
#[derive(Debug)]
pub enum DefaultString {
    /// The text as given.
    Literal(String),
    /// `len` characters, each drawn from `charset`.
    Entropy { charset: Vec<char>, len: usize },
}

/// Where in another package's configuration a pointer looks: the property
/// names that lead there from the top.
#[derive(Debug)]
pub struct ConfigSelector(pub Vec<String>);

/// What of another package a pointer takes.
#[derive(Debug)]
pub enum PackagePointerSpecVariant {
    TorAddress { interface: Id },
    LanAddress { interface: Id },
    Config { selector: ConfigSelector, multi: bool },
}

/// What of the system a pointer takes.
#[derive(Clone, Copy, Debug, PartialEq, Eq, Structural)]
pub enum SystemPointerSpec {
    HostIp,
}

/// A value that is not held in the configuration itself but read from
/// elsewhere.
#[derive(Debug)]
pub enum ValueSpecPointer {
    Package { package_id: PackageId, target: PackagePointerSpecVariant },
    System(SystemPointerSpec),
}

/// What of another package a pointer takes, as a plain value.
pub enum PointerTargetView {
    TorAddress(Seq<char>),
    LanAddress(Seq<char>),
    Config(Seq<Seq<char>>, bool),
}

/// A pointer as a plain value.
pub enum PointerView {
    Package(Seq<char>, PointerTargetView),
    System(SystemPointerSpec),
}

impl View for PackagePointerSpecVariant {
    type V = PointerTargetView;

    open spec fn view(&self) -> PointerTargetView {
        match *self {
            PackagePointerSpecVariant::TorAddress { interface } => PointerTargetView::TorAddress(
                interface@,
            ),
            PackagePointerSpecVariant::LanAddress { interface } => PointerTargetView::LanAddress(
                interface@,
            ),
            PackagePointerSpecVariant::Config { selector, multi } => PointerTargetView::Config(
                texts(selector.0@),
                multi,
            ),
        }
    }
}

impl View for ValueSpecPointer {
    type V = PointerView;

    open spec fn view(&self) -> PointerView {
        match *self {
            ValueSpecPointer::Package { package_id, target } => PointerView::Package(
                package_id@,
                target@,
            ),
            ValueSpecPointer::System(s) => PointerView::System(s),
        }
    }
}

impl Clone for ConfigSelector {
    fn clone(&self) -> (r: ConfigSelector)
        ensures
            texts(r.0@) == texts(self.0@),
    {
        ConfigSelector(clone_strings(&self.0))
    }
}

impl Clone for PackagePointerSpecVariant {
    fn clone(&self) -> (r: PackagePointerSpecVariant)
        ensures
            r@ == self@,
    {
        match self {
            PackagePointerSpecVariant::TorAddress { interface } =>
                PackagePointerSpecVariant::TorAddress { interface: interface.clone() },
            PackagePointerSpecVariant::LanAddress { interface } =>
                PackagePointerSpecVariant::LanAddress { interface: interface.clone() },
            PackagePointerSpecVariant::Config { selector, multi } =>
                PackagePointerSpecVariant::Config { selector: selector.clone(), multi: *multi },
        }
    }
}

impl Clone for ValueSpecPointer {
    fn clone(&self) -> (r: ValueSpecPointer)
        ensures
            r@ == self@,
    {
        match self {
            ValueSpecPointer::Package { package_id, target } => ValueSpecPointer::Package {
                package_id: package_id.clone(),
                target: target.clone(),
            },
            ValueSpecPointer::System(s) => ValueSpecPointer::System(*s),
        }
    }
}

/// One variant of a union: its name and the properties it has.
pub struct Variant {
    pub name: String,
    pub fields: Vec<Field>,
}

/// One property of an object: its name and the schema of its value.
pub struct Field {
    pub name: String,
    pub spec: ValueSpec,
}

/// The schema of one value.
pub enum ValueSpec {
    Boolean { default: bool },
    Enum { values: Vec<String>, default: String },
    List { inner: Box<ValueSpec>, range: crate::config::NumRange, unique: bool, default: Vec<Json> },
    Number {
        range: Option<crate::config::NumRange>,
        integral: bool,
        nullable: bool,
        default: Option<crate::config::value::Number>,
    },
    Object { fields: Vec<Field>, nullable: bool },
    String { pattern: Option<Pattern>, nullable: bool, default: Option<DefaultString> },
    Union { tag: String, variants: Vec<Variant>, default: String },
    Pointer(ValueSpecPointer),
}

/// The schema of a configuration: the properties of its top-level object.
pub struct ConfigSpec(pub Vec<Field>);

/// The names of the variants.
pub open spec fn names_of(variants: Seq<Variant>) -> Seq<Seq<char>> {
    Seq::new(variants.len(), |i: int| variants[i].name@)
}

/// The variants, each under its name.
pub open spec fn variants_by_name(variants: Seq<Variant>) -> Seq<(Seq<char>, Variant)> {
    Seq::new(variants.len(), |i: int| (variants[i].name@, variants[i]))
}

/// The place of the first variant named `name`, or `variants.len()` where
/// there is none.
pub open spec fn variant_index(variants: Seq<Variant>, name: Seq<char>) -> int {
    crate::ordered_map::position(variants_by_name(variants), name)
}

/// Do two of the items hold the same document?
pub open spec fn has_duplicate(items: Seq<JsonView>) -> bool {
    exists|i: int, j: int| 0 <= i < j < items.len() && same_json(items[i], items[j])
}

/// What is wrong with `v` under `spec`: the first violation met, with the
/// path that leads to it, or `None` where `v` matches.
pub open spec fn violation(spec: ValueSpec, v: JsonView) -> Option<NoMatchView>
    decreases spec, 0nat,
{
    match spec {
        ValueSpec::Boolean { .. } => if v is Bool {
            None
        } else {
            Some(here(MatchErrorView::InvalidType("boolean", kind_of(v))))
        },
        ValueSpec::Enum { values, .. } => match v {
            JsonView::String(s) => if texts(values@).contains(s) {
                None
            } else {
                Some(here(MatchErrorView::Enum(s, texts(values@))))
            },
            _ => Some(here(MatchErrorView::InvalidType("string", kind_of(v)))),
        },
        ValueSpec::List { inner, range, unique, .. } => match v {
            JsonView::Array(items) => if !in_range(range, items.len() as int, true) {
                Some(here(MatchErrorView::LengthMismatch(range, items.len() as usize)))
            } else {
                match items_violation(*inner, items, 0) {
                    Some(e) => Some(e),
                    None => if unique && has_duplicate(items) {
                        Some(here(MatchErrorView::ListUniquenessViolation))
                    } else {
                        None
                    },
                }
            },
            _ => Some(here(MatchErrorView::InvalidType("list", kind_of(v)))),
        },
        ValueSpec::Number { range, integral, nullable, .. } => match v {
            JsonView::Null => if nullable {
                None
            } else {
                Some(here(MatchErrorView::NotNullable))
            },
            JsonView::Number { text, floor, integral: whole } => if integral && !whole {
                Some(
                    here(MatchErrorView::NonIntegral(NumberView { text, floor, integral: whole })),
                )
            } else if range is Some && !in_range(range->0, floor as int, whole) {
                Some(
                    here(
                        MatchErrorView::OutOfRange(
                            range->0,
                            NumberView { text, floor, integral: whole },
                        ),
                    ),
                )
            } else {
                None
            },
            _ => Some(here(MatchErrorView::InvalidType("number", kind_of(v)))),
        },
        ValueSpec::Object { fields, nullable } => match v {
            JsonView::Null => if nullable {
                None
            } else {
                Some(here(MatchErrorView::NotNullable))
            },
            JsonView::Object(props) => fields_violation(fields@, props, 0),
            _ => Some(here(MatchErrorView::InvalidType("object", kind_of(v)))),
        },
        ValueSpec::String { pattern, nullable, .. } => match v {
            JsonView::Null => if nullable {
                None
            } else {
                Some(here(MatchErrorView::NotNullable))
            },
            JsonView::String(s) => match pattern {
                Some(p) => if pattern_accepts(p.pattern@, s) == Some(true) {
                    None
                } else {
                    Some(here(MatchErrorView::Pattern(s, p.pattern@)))
                },
                None => None,
            },
            _ => Some(here(MatchErrorView::InvalidType("string", kind_of(v)))),
        },
        ValueSpec::Union { tag, variants, .. } => match v {
            JsonView::Object(props) => match property(props, tag@) {
                None => Some(here(MatchErrorView::MissingTag(tag@))),
                Some(JsonView::String(name)) => if 0 <= variant_index(variants@, name)
                    < variants@.len() {
                    fields_violation(variants@[variant_index(variants@, name)].fields@, props, 0)
                } else {
                    Some(here(MatchErrorView::Union(name, names_of(variants@))))
                },
                Some(other) => Some(
                    under(here(MatchErrorView::InvalidType("string", kind_of(other))), tag@),
                ),
            },
            _ => Some(here(MatchErrorView::InvalidType("object", kind_of(v)))),
        },
        ValueSpec::Pointer(_) => None,
    }
}

/// The first violation among the fields from `from` on: each field is
/// held against the property of its name, or against null where the object
/// has none.
pub open spec fn fields_violation(
    fields: Seq<Field>,
    props: Seq<(Seq<char>, JsonView)>,
    from: int,
) -> Option<NoMatchView>
    decreases fields, fields.len() - from + 1,
{
    if from < 0 || from >= fields.len() {
        None
    } else {
        let v = match property(props, fields[from].name@) {
            Some(v) => v,
            None => JsonView::Null,
        };
        match violation(fields[from].spec, v) {
            Some(e) => Some(under(e, fields[from].name@)),
            None => fields_violation(fields, props, from + 1),
        }
    }
}

/// The first violation among the items from `from` on, each held against
/// `inner`; the path segment of an item is its place in the list.
pub open spec fn items_violation(inner: ValueSpec, items: Seq<JsonView>, from: int) -> Option<
    NoMatchView,
>
    decreases inner, items.len() - from + 1,
{
    if from < 0 || from >= items.len() {
        None
    } else {
        match violation(inner, items[from]) {
            Some(e) => Some(under(e, decimal(from as nat))),
            None => items_violation(inner, items, from + 1),
        }
    }
}

/// The place of the first variant named `name`.
pub fn find_variant(variants: &Vec<Variant>, name: &str) -> (r: Option<usize>)
    ensures
        r is Some <==> 0 <= variant_index(variants@, name@) < variants@.len(),
        r matches Some(i) ==> i == variant_index(variants@, name@),
        r is None ==> variant_index(variants@, name@) == variants@.len(),
{
    let ghost view = variants_by_name(variants@);
    proof {
        crate::ordered_map::position_finds(view, name@);
    }
    let mut i: usize = 0;
    while i < variants.len()
        invariant
            i <= variants@.len(),
            view == variants_by_name(variants@),
            forall|j: int| 0 <= j < i ==> (#[trigger] view[j]).0 != name@,
            0 <= crate::ordered_map::position(view, name@) <= view.len(),
            crate::ordered_map::position(view, name@) < view.len() ==> view[crate::ordered_map::position(
                view,
                name@,
            )].0 == name@,
            forall|j: int|
                0 <= j < crate::ordered_map::position(view, name@) ==> (#[trigger] view[j]).0
                    != name@,
        decreases variants@.len() - i,
    {
        if same_text(variants[i].name.as_str(), name) {
            assert(view[i as int].0 == name@);
            return Some(i);
        }
        i = i + 1;
    }
    None
}

/// The names of the variants.
pub fn variant_names(variants: &Vec<Variant>) -> (names: Vec<String>)
    ensures
        texts(names@) == names_of(variants@),
{
    let mut names: Vec<String> = Vec::new();
    let mut i: usize = 0;
    while i < variants.len()
        invariant
            i <= variants@.len(),
            names@.len() == i,
            forall|j: int| 0 <= j < i ==> (#[trigger] names@[j])@ == variants@[j].name@,
        decreases variants@.len() - i,
    {
        names.push(variants[i].name.clone());
        i = i + 1;
    }
    assert(texts(names@) =~= names_of(variants@));
    names
}

/// Do two of the items hold the same document?
pub fn has_duplicates(items: &Vec<Json>) -> (b: bool)
    ensures
        b == has_duplicate(items_view(items@)),
{
    let ghost view = items_view(items@);
    let mut j: usize = 0;
    while j < items.len()
        invariant
            j <= items@.len(),
            view == items_view(items@),
            forall|a: int, b: int| 0 <= a < b < j ==> !same_json(view[a], view[b]),
        decreases items@.len() - j,
    {
        let mut i: usize = 0;
        while i < j
            invariant
                i <= j < items@.len(),
                view == items_view(items@),
                forall|a: int| 0 <= a < i ==> !same_json(view[a], view[j as int]),
            decreases j - i,
        {
            if items[i].equals(&items[j]) {
                assert(same_json(view[i as int], view[j as int]));
                return true;
            }
            i = i + 1;
        }
        j = j + 1;
    }
    false
}

/// The result of a match, held against what the schema says is wrong.
pub open spec fn reports(r: Result<(), NoMatchWithPath>, wrong: Option<NoMatchView>) -> bool {
    match r {
        Ok(()) => wrong is None,
        Err(e) => wrong == Some(e@),
    }
}

/// The error, met right here.
fn fail(error: MatchError) -> (r: Result<(), NoMatchWithPath>)
    ensures
        r matches Err(e) && e@ == here(error@),
{
    Err(NoMatchWithPath::new(error))
}

/// The error that the value is of the wrong kind.
fn wrong_kind(expected: &'static str, value: &Json) -> (r: Result<(), NoMatchWithPath>)
    ensures
        r matches Err(e) && e@ == here(MatchErrorView::InvalidType(expected, kind_of(value@))),
{
    fail(MatchError::InvalidType(expected, value.type_of()))
}

/// Holds the fields from `from` on against the properties.
fn match_fields(fields: &Vec<Field>, props: &Vec<Property>, from: usize) -> (r: Result<
    (),
    NoMatchWithPath,
>)
    ensures
        reports(r, fields_violation(fields@, config_view(props@), from as int)),
    decreases fields@, fields@.len() - from + 1,
{
    if from >= fields.len() {
        return Ok(());
    }
    let field = &fields[from];
    let null = Json::Null;
    let value = match get_property(props, field.name.as_str()) {
        Some(v) => v,
        None => &null,
    };
    match field.spec.matches(value) {
        Err(e) => Err(e.prepend(field.name.clone())),
        Ok(()) => match_fields(fields, props, from + 1),
    }
}

/// Holds the items from `from` on against `inner`.
fn match_items(inner: &ValueSpec, items: &Vec<Json>, from: usize) -> (r: Result<
    (),
    NoMatchWithPath,
>)
    ensures
        reports(r, items_violation(*inner, items_view(items@), from as int)),
    decreases inner, items@.len() - from + 1,
{
    if from >= items.len() {
        return Ok(());
    }
    match inner.matches(&items[from]) {
        Err(e) => {
            let mut index: Vec<char> = Vec::new();
            push_decimal(from as u64, &mut index);
            assert(index@ =~= decimal(from as nat));
            Err(e.prepend(crate::text::string_of(&index)))
        },
        Ok(()) => match_items(inner, items, from + 1),
    }
}

impl ValueSpec {
    /// Holds `value` against the schema: `Ok` where it matches, and
    /// otherwise the first violation with the path that leads to it.
    pub fn matches(&self, value: &Json) -> (r: Result<(), NoMatchWithPath>)
        ensures
            reports(r, violation(*self, value@)),
        decreases self, 0nat,
    {
        match self {
            ValueSpec::Boolean { .. } => match value {
                Json::Bool(_) => Ok(()),
                _ => wrong_kind("boolean", value),
            },
            ValueSpec::Enum { values, .. } => match value {
                Json::String(s) => {
                    if contains_text(values, s.as_str()) {
                        Ok(())
                    } else {
                        fail(MatchError::Enum(s.clone(), clone_strings(values)))
                    }
                },
                _ => wrong_kind("string", value),
            },
            ValueSpec::List { inner, range, unique, .. } => match value {
                Json::Array(items) => {
                    proof {
                        Json::array_view(*items);
                    }
                    if !range.contains_len(items.len()) {
                        return fail(MatchError::LengthMismatch(*range, items.len()));
                    }
                    match match_items(inner, items, 0) {
                        Err(e) => Err(e),
                        Ok(()) => {
                            if *unique && has_duplicates(items) {
                                fail(MatchError::ListUniquenessViolation)
                            } else {
                                Ok(())
                            }
                        },
                    }
                },
                _ => wrong_kind("list", value),
            },
            ValueSpec::Number { range, integral, nullable, .. } => match value {
                Json::Null => {
                    if *nullable {
                        Ok(())
                    } else {
                        fail(MatchError::NotNullable)
                    }
                },
                Json::Number(n) => {
                    if *integral && !n.integral {
                        return fail(MatchError::NonIntegral(n.clone()));
                    }
                    match range {
                        Some(range) => {
                            if !range.contains(n.floor, n.integral) {
                                return fail(MatchError::OutOfRange(*range, n.clone()));
                            }
                        },
                        None => {},
                    }
                    Ok(())
                },
                _ => wrong_kind("number", value),
            },
            ValueSpec::Object { fields, nullable } => match value {
                Json::Null => {
                    if *nullable {
                        Ok(())
                    } else {
                        fail(MatchError::NotNullable)
                    }
                },
                Json::Object(props) => {
                    proof {
                        Json::object_view(*props);
                    }
                    match_fields(fields, props, 0)
                },
                _ => wrong_kind("object", value),
            },
            ValueSpec::String { pattern, nullable, .. } => match value {
                Json::Null => {
                    if *nullable {
                        Ok(())
                    } else {
                        fail(MatchError::NotNullable)
                    }
                },
                Json::String(s) => match pattern {
                    Some(p) => {
                        match pattern_match(p.pattern.as_str(), s.as_str()) {
                            Some(true) => Ok(()),
                            _ => fail(MatchError::Pattern(s.clone(), p.pattern.clone())),
                        }
                    },
                    None => Ok(()),
                },
                _ => wrong_kind("string", value),
            },
            ValueSpec::Union { tag, variants, .. } => match value {
                Json::Object(props) => {
                    proof {
                        Json::object_view(*props);
                    }
                    match get_property(props, tag.as_str()) {
                        None => fail(MatchError::MissingTag(tag.clone())),
                        Some(Json::String(name)) => {
                            match find_variant(variants, name.as_str()) {
                                Some(i) => match_fields(&variants[i].fields, props, 0),
                                None => fail(
                                    MatchError::Union(name.clone(), variant_names(variants)),
                                ),
                            }
                        },
                        Some(other) => {
                            match wrong_kind("string", other) {
                                Err(e) => Err(e.prepend(tag.clone())),
                                Ok(()) => Ok(()),
                            }
                        },
                    }
                },
                _ => wrong_kind("object", value),
            },
            ValueSpec::Pointer(_) => Ok(()),
        }
    }
}

impl ConfigSpec {
    /// Holds a configuration against the schema: `Ok` where it matches, and
    /// otherwise the first violation with the path that leads to it.
    pub fn matches(&self, config: &Vec<Property>) -> (r: Result<(), NoMatchWithPath>)
        ensures
            reports(r, fields_violation(self.0@, config_view(config@), 0)),
    {
        match_fields(&self.0, config, 0)
    }
}

/// The names of the fields, each with its field.
pub open spec fn fields_by_name(fields: Seq<Field>) -> Seq<(Seq<char>, Field)> {
    Seq::new(fields.len(), |i: int| (fields[i].name@, fields[i]))
}

/// Is none of the fields named `name`?
pub open spec fn no_field_named(fields: Seq<Field>, name: Seq<char>) -> bool {
    forall|i: int| 0 <= i < fields.len() ==> (#[trigger] fields[i]).name@ != name
}

/// Is the schema sound: does every default it declares match it, can every
/// value be generated, and is no name used twice where names tell things
/// apart?
pub open spec fn sound(spec: ValueSpec) -> bool
    decreases spec, 0nat,
{
    match spec {
        ValueSpec::Boolean { .. } => true,
        ValueSpec::Enum { values, default } => texts(values@).contains(default@),
        ValueSpec::List { inner, default, .. } => sound(*inner) && violation(
            spec,
            JsonView::Array(items_view(default@)),
        ) is None,
        ValueSpec::Number { nullable, default, .. } => match default {
            Some(n) => violation(
                spec,
                JsonView::Number { text: n.text@, floor: n.floor, integral: n.integral },
            ) is None,
            None => nullable,
        },
        ValueSpec::Object { fields, .. } => fields_sound(fields@, 0)
            && crate::ordered_map::keys_distinct(fields_by_name(fields@)),
        ValueSpec::String { pattern, nullable, default } => match default {
            None => nullable,
            Some(DefaultString::Literal(s)) => pattern is None || pattern_accepts(
                pattern->0.pattern@,
                s@,
            ) == Some(true),
            Some(DefaultString::Entropy { charset, .. }) => charset@.len() > 0,
        },
        ValueSpec::Union { tag, variants, default } => 0 <= variant_index(variants@, default@)
            < variants@.len() && variants_sound(variants@, tag@, 0),
        ValueSpec::Pointer(_) => true,
    }
}

/// Are the fields from `from` on sound?
pub open spec fn fields_sound(fields: Seq<Field>, from: int) -> bool
    decreases fields, fields.len() - from + 1,
{
    if from < 0 || from >= fields.len() {
        true
    } else {
        sound(fields[from].spec) && fields_sound(fields, from + 1)
    }
}

/// Are the variants from `from` on sound: their fields are, no two of
/// their fields share a name, and none is named like the tag?
pub open spec fn variants_sound(variants: Seq<Variant>, tag: Seq<char>, from: int) -> bool
    decreases variants, variants.len() - from + 1,
{
    if from < 0 || from >= variants.len() {
        true
    } else {
        &&& fields_sound(variants[from].fields@, 0)
        &&& crate::ordered_map::keys_distinct(fields_by_name(variants[from].fields@))
        &&& no_field_named(variants[from].fields@, tag)
        &&& variants_sound(variants, tag, from + 1)
    }
}

/// Sound fields are sound one by one.
pub proof fn fields_sound_each(fields: Seq<Field>, from: int, i: int)
    requires
        0 <= from <= i < fields.len(),
        fields_sound(fields, from),
    ensures
        sound(fields[i].spec),
    decreases i - from,
{
    if from < i {
        fields_sound_each(fields, from + 1, i);
    }
}

/// Sound variants are sound one by one.
pub proof fn variants_sound_each(variants: Seq<Variant>, tag: Seq<char>, from: int, i: int)
    requires
        0 <= from <= i < variants.len(),
        variants_sound(variants, tag, from),
    ensures
        fields_sound(variants[i].fields@, 0),
        crate::ordered_map::keys_distinct(fields_by_name(variants[i].fields@)),
        no_field_named(variants[i].fields@, tag),
    decreases i - from,
{
    if from < i {
        variants_sound_each(variants, tag, from + 1, i);
    }
}

/// Where every field from `from` on is matched by the property of its
/// name, or by null where there is none, the fields hold no violation.
pub proof fn fields_match_one_by_one(
    fields: Seq<Field>,
    props: Seq<(Seq<char>, JsonView)>,
    from: int,
)
    requires
        0 <= from,
        forall|i: int|
            from <= i < fields.len() ==> violation(
                (#[trigger] fields[i]).spec,
                match property(props, fields[i].name@) {
                    Some(v) => v,
                    None => JsonView::Null,
                },
            ) is None,
    ensures
        fields_violation(fields, props, from) is None,
    decreases fields.len() - from,
{
    if from < fields.len() {
        fields_match_one_by_one(fields, props, from + 1);
    }
}

} // verus!
