//! Checking that a schema is sound before it is used: what is wrong with
//! it, if anything is, and where.

use vstd::prelude::*;
use crate::config::{
    here, under, Bound, MatchError, MatchErrorView, NoMatchView, NoMatchWithPath, NumRange,
};
use crate::config::generate::config_spec_sound;
use crate::config::spec::{
    fields_by_name, fields_sound, find_variant, names_of, no_field_named, pattern_accepts,
    pattern_match, reports, sound, variant_index, variant_names, variants_sound, violation,
    ConfigSpec, DefaultString, Field, Pattern, ValueSpec, ValueSpecPointer, Variant,
};
use crate::config::value::{items_view, Json, JsonView};
use crate::dependencies::DepInfo;
use crate::ordered_map::{has_key, keys_distinct, same_text, OrderedMap};
use crate::text::{clone_strings, contains_text, texts};

verus! {

/// Does the `j`-th field have the name of a field before it?
pub open spec fn repeats(fields: Seq<Field>, j: int) -> bool {
    exists|i: int| 0 <= i < j && (#[trigger] fields[i]).name@ == fields[j].name@
}

/// The place of the first field, from `from` on, that has the name of a
/// field before it.
pub open spec fn first_repeat(fields: Seq<Field>, from: int) -> Option<int>
    decreases fields.len() - from,
{
    if from < 0 || from >= fields.len() {
        None
    } else if repeats(fields, from) {
        Some(from)
    } else {
        first_repeat(fields, from + 1)
    }
}

/// No field repeats a name exactly if the names are distinct.
pub proof fn no_repeat_is_distinct(fields: Seq<Field>, from: int)
    requires
        0 <= from,
    ensures
        first_repeat(fields, from) is None <==> forall|j: int|
            from <= j < fields.len() ==> !repeats(fields, j),
        first_repeat(fields, 0) is None && from == 0 ==> keys_distinct(fields_by_name(fields)),
        keys_distinct(fields_by_name(fields)) ==> first_repeat(fields, from) is None,
    decreases fields.len() - from,
{
    let names = fields_by_name(fields);
    if from < fields.len() {
        no_repeat_is_distinct(fields, from + 1);
    }
    if first_repeat(fields, 0) is None && from == 0 {
        assert forall|a: int, b: int| 0 <= a < b < names.len() implies (#[trigger] names[a]).0 != (
        #[trigger] names[b]).0 by {
            if names[a].0 == names[b].0 {
                assert(fields[a].name@ == fields[b].name@);
                assert(repeats(fields, b));
            }
        }
    }
    if keys_distinct(names) {
        assert forall|j: int| from <= j < fields.len() implies !repeats(fields, j) by {
            if repeats(fields, j) {
                let i = choose|i: int| 0 <= i < j && (#[trigger] fields[i]).name@ == fields[j].name@;
                assert(names[i].0 != names[j].0);
            }
        }
    }
}

/// What is wrong with the default of a string: a literal default has to
/// match the pattern, where there is one, and a default that is drawn needs
/// something to draw from.
pub open spec fn default_defect(pattern: Option<Pattern>, default: DefaultString) -> Option<
    NoMatchView,
> {
    match default {
        DefaultString::Literal(s) => match pattern {
            Some(p) => if pattern_accepts(p.pattern@, s@) == Some(true) {
                None
            } else {
                Some(here(MatchErrorView::Pattern(s@, p.pattern@)))
            },
            None => None,
        },
        DefaultString::Entropy { charset, .. } => if charset@.len() > 0 {
            None
        } else {
            Some(
                here(
                    MatchErrorView::LengthMismatch(
                        NumRange { min: Some(Bound { value: 1, inclusive: true }), max: None },
                        0,
                    ),
                ),
            )
        },
    }
}

/// What is wrong with a schema: the first defect met, with the path that
/// leads to it, or `None` where the schema is sound. The default of an enum
/// has to be one of its values; the default of a list and of a number has to
/// match the schema; a number and a string without default have to admit
/// null; a literal default has to match the pattern, and a default that is
/// drawn needs something to draw from; the fields of an object have to be
/// sound and differ in name; the default of a union has to name a variant,
/// and the fields of every variant have to be sound, differ in name, and not
/// be named like the tag.
pub open spec fn defect(spec: ValueSpec) -> Option<NoMatchView>
    decreases spec, 0nat,
{
    match spec {
        ValueSpec::Boolean { .. } => None,
        ValueSpec::Enum { values, default } => if texts(values@).contains(default@) {
            None
        } else {
            Some(here(MatchErrorView::Enum(default@, texts(values@))))
        },
        ValueSpec::List { inner, default, .. } => match defect(*inner) {
            Some(e) => Some(e),
            None => violation(spec, JsonView::Array(items_view(default@))),
        },
        ValueSpec::Number { nullable, default, .. } => match default {
            Some(n) => violation(
                spec,
                JsonView::Number { text: n.text@, floor: n.floor, integral: n.integral },
            ),
            None => if nullable {
                None
            } else {
                Some(here(MatchErrorView::NotNullable))
            },
        },
        ValueSpec::Object { fields, .. } => match fields_defect(fields@, 0) {
            Some(e) => Some(e),
            None => match first_repeat(fields@, 0) {
                Some(j) => Some(here(MatchErrorView::InvalidKey(fields@[j].name@))),
                None => None,
            },
        },
        ValueSpec::String { pattern, nullable, default } => match default {
            None => if nullable {
                None
            } else {
                Some(here(MatchErrorView::NotNullable))
            },
            Some(d) => default_defect(pattern, d),
        },
        ValueSpec::Union { tag, variants, default } => if 0 <= variant_index(variants@, default@)
            < variants@.len() {
            variants_defect(variants@, tag@, 0)
        } else {
            Some(here(MatchErrorView::Union(default@, names_of(variants@))))
        },
        ValueSpec::Pointer(_) => None,
    }
}

/// The first defect among the fields from `from` on, under the name of
/// its field.
pub open spec fn fields_defect(fields: Seq<Field>, from: int) -> Option<NoMatchView>
    decreases fields, fields.len() - from + 1,
{
    if from < 0 || from >= fields.len() {
        None
    } else {
        match defect(fields[from].spec) {
            Some(e) => Some(under(e, fields[from].name@)),
            None => fields_defect(fields, from + 1),
        }
    }
}

/// The first defect among the variants from `from` on: a defect of a
/// field, under the name of the variant; a name that two fields share; a
/// field named like the tag.
pub open spec fn variants_defect(variants: Seq<Variant>, tag: Seq<char>, from: int) -> Option<
    NoMatchView,
>
    decreases variants, variants.len() - from + 1,
{
    if from < 0 || from >= variants.len() {
        None
    } else {
        let variant = variants[from];
        match fields_defect(variant.fields@, 0) {
            Some(e) => Some(under(e, variant.name@)),
            None => match first_repeat(variant.fields@, 0) {
                Some(j) => Some(here(MatchErrorView::InvalidKey(variant.fields@[j].name@))),
                None => if no_field_named(variant.fields@, tag) {
                    variants_defect(variants, tag, from + 1)
                } else {
                    Some(here(MatchErrorView::PropertyMatchesUnionTag(tag, variant.name@)))
                },
            },
        }
    }
}

/// A schema is sound exactly if nothing is wrong with it.
pub proof fn sound_is_without_defect(spec: ValueSpec)
    ensures
        defect(spec) is None <==> sound(spec),
    decreases spec, 0nat,
{
    match spec {
        ValueSpec::List { inner, .. } => {
            sound_is_without_defect(*inner);
        },
        ValueSpec::Object { fields, .. } => {
            sound_fields_are_without_defect(fields@, 0);
            no_repeat_is_distinct(fields@, 0);
        },
        ValueSpec::Union { tag, variants, .. } => {
            sound_variants_are_without_defect(variants@, tag@, 0);
        },
        _ => {},
    }
}

/// Fields are sound exactly if nothing is wrong with any of them.
pub proof fn sound_fields_are_without_defect(fields: Seq<Field>, from: int)
    requires
        0 <= from,
    ensures
        fields_defect(fields, from) is None <==> fields_sound(fields, from),
    decreases fields, fields.len() - from + 1,
{
    if from < fields.len() {
        sound_is_without_defect(fields[from].spec);
        sound_fields_are_without_defect(fields, from + 1);
    }
}

/// Variants are sound exactly if nothing is wrong with any of them.
pub proof fn sound_variants_are_without_defect(variants: Seq<Variant>, tag: Seq<char>, from: int)
    requires
        0 <= from,
    ensures
        variants_defect(variants, tag, from) is None <==> variants_sound(variants, tag, from),
    decreases variants, variants.len() - from + 1,
{
    if from < variants.len() {
        sound_fields_are_without_defect(variants[from].fields@, 0);
        no_repeat_is_distinct(variants[from].fields@, 0);
        sound_variants_are_without_defect(variants, tag, from + 1);
    }
}

/// The place of the first field that has the name of a field before it.
pub fn names_distinct(fields: &Vec<Field>) -> (r: Option<usize>)
    ensures
        r is None <==> keys_distinct(fields_by_name(fields@)),
        match first_repeat(fields@, 0) {
            Some(j) => r matches Some(found) && found == j,
            None => r is None,
        },
        r matches Some(j) ==> j < fields@.len(),
{
    let mut j: usize = 0;
    while j < fields.len()
        invariant
            j <= fields@.len(),
            first_repeat(fields@, 0) == first_repeat(fields@, j as int),
        decreases fields@.len() - j,
    {
        let mut i: usize = 0;
        while i < j
            invariant
                i <= j < fields@.len(),
                first_repeat(fields@, 0) == first_repeat(fields@, j as int),
                forall|a: int| 0 <= a < i ==> (#[trigger] fields@[a]).name@ != fields@[j as int].name@,
            decreases j - i,
        {
            if same_text(fields[i].name.as_str(), fields[j].name.as_str()) {
                assert(fields@[i as int].name@ == fields@[j as int].name@);
                assert(repeats(fields@, j as int));
                proof {
                    no_repeat_is_distinct(fields@, 0);
                }
                return Some(j);
            }
            i = i + 1;
        }
        assert(!repeats(fields@, j as int));
        j = j + 1;
    }
    proof {
        no_repeat_is_distinct(fields@, 0);
    }
    None
}

/// The place of the first field named `name`, if there is one.
fn field_named(fields: &Vec<Field>, name: &str) -> (r: Option<usize>)
    ensures
        r is None <==> no_field_named(fields@, name@),
        r matches Some(i) ==> i < fields@.len(),
{
    let mut i: usize = 0;
    while i < fields.len()
        invariant
            i <= fields@.len(),
            forall|j: int| 0 <= j < i ==> (#[trigger] fields@[j]).name@ != name@,
        decreases fields@.len() - i,
    {
        if same_text(fields[i].name.as_str(), name) {
            return Some(i);
        }
        i = i + 1;
    }
    None
}

/// The defect, met right here.
fn unsound(error: MatchError) -> (r: Result<(), NoMatchWithPath>)
    ensures
        r matches Err(e) && e@ == here(error@),
{
    Err(NoMatchWithPath::new(error))
}

/// Checks the fields from `from` on.
fn validate_fields(fields: &Vec<Field>, from: usize) -> (r: Result<(), NoMatchWithPath>)
    ensures
        reports(r, fields_defect(fields@, from as int)),
    decreases fields@, fields@.len() - from + 1,
{
    if from >= fields.len() {
        return Ok(());
    }
    match fields[from].spec.validate() {
        Err(e) => Err(e.prepend(fields[from].name.clone())),
        Ok(()) => validate_fields(fields, from + 1),
    }
}

/// Checks the variants from `from` on.
fn validate_variants(variants: &Vec<Variant>, tag: &str, from: usize) -> (r: Result<
    (),
    NoMatchWithPath,
>)
    ensures
        reports(r, variants_defect(variants@, tag@, from as int)),
    decreases variants@, variants@.len() - from + 1,
{
    if from >= variants.len() {
        return Ok(());
    }
    let variant = &variants[from];
    match validate_fields(&variant.fields, 0) {
        Err(e) => {
            return Err(e.prepend(variant.name.clone()));
        },
        Ok(()) => {},
    }
    match names_distinct(&variant.fields) {
        Some(j) => {
            return unsound(MatchError::InvalidKey(variant.fields[j].name.clone()));
        },
        None => {},
    }
    match field_named(&variant.fields, tag) {
        Some(_) => {
            return unsound(
                MatchError::PropertyMatchesUnionTag(tag.to_owned(), variant.name.clone()),
            );
        },
        None => {},
    }
    validate_variants(variants, tag, from + 1)
}

impl ValueSpec {
    /// Checks that the schema is sound: `Ok` where it is, and otherwise the
    /// first defect with the path that leads to it.
    pub fn validate(&self) -> (r: Result<(), NoMatchWithPath>)
        ensures
            reports(r, defect(*self)),
            r is Ok <==> sound(*self),
        decreases self, 0nat,
    {
        proof {
            sound_is_without_defect(*self);
        }
        match self {
            ValueSpec::Boolean { .. } => Ok(()),
            ValueSpec::Enum { values, default } => {
                if contains_text(values, default.as_str()) {
                    Ok(())
                } else {
                    unsound(MatchError::Enum(default.clone(), clone_strings(values)))
                }
            },
            ValueSpec::List { inner, default, .. } => {
                match inner.validate() {
                    Err(e) => {
                        return Err(e);
                    },
                    Ok(()) => {},
                }
                let mut items: Vec<Json> = Vec::new();
                let mut i: usize = 0;
                while i < default.len()
                    invariant
                        i <= default@.len(),
                        items@.len() == i,
                        forall|j: int| 0 <= j < i ==> (#[trigger] items@[j])@ == default@[j]@,
                    decreases default@.len() - i,
                {
                    items.push(default[i].clone());
                    i = i + 1;
                }
                proof {
                    Json::array_view(items);
                    assert(items_view(items@) =~= items_view(default@));
                }
                self.matches(&Json::Array(items))
            },
            ValueSpec::Number { nullable, default, .. } => match default {
                Some(n) => self.matches(&Json::Number(n.clone())),
                None => {
                    if *nullable {
                        Ok(())
                    } else {
                        unsound(MatchError::NotNullable)
                    }
                },
            },
            ValueSpec::Object { fields, .. } => {
                match validate_fields(fields, 0) {
                    Err(e) => {
                        return Err(e);
                    },
                    Ok(()) => {},
                }
                match names_distinct(fields) {
                    Some(j) => unsound(MatchError::InvalidKey(fields[j].name.clone())),
                    None => Ok(()),
                }
            },
            ValueSpec::String { pattern, nullable, default } => match default {
                None => {
                    if *nullable {
                        Ok(())
                    } else {
                        unsound(MatchError::NotNullable)
                    }
                },
                Some(DefaultString::Literal(s)) => match pattern {
                    None => Ok(()),
                    Some(p) => match pattern_match(p.pattern.as_str(), s.as_str()) {
                        Some(true) => Ok(()),
                        _ => unsound(MatchError::Pattern(s.clone(), p.pattern.clone())),
                    },
                },
                Some(DefaultString::Entropy { charset, .. }) => {
                    if charset.len() > 0 {
                        Ok(())
                    } else {
                        unsound(
                            MatchError::LengthMismatch(
                                NumRange {
                                    min: Some(Bound { value: 1, inclusive: true }),
                                    max: None,
                                },
                                0,
                            ),
                        )
                    }
                },
            },
            ValueSpec::Union { tag, variants, default } => {
                match find_variant(variants, default.as_str()) {
                    None => {
                        return unsound(
                            MatchError::Union(default.clone(), variant_names(variants)),
                        );
                    },
                    Some(_) => {},
                }
                validate_variants(variants, tag.as_str(), 0)
            },
            ValueSpec::Pointer(_) => Ok(()),
        }
    }
}

/// Does every pointer of the schema that looks into another package look
/// into a declared dependency?
pub open spec fn pointers_known(spec: ValueSpec, dependencies: Seq<(Seq<char>, DepInfo)>) -> bool
    decreases spec,
{
    match spec {
        ValueSpec::Pointer(ValueSpecPointer::Package { package_id, .. }) => has_key(
            dependencies,
            package_id@,
        ),
        ValueSpec::Object { fields, .. } => pointers_declared(fields@, dependencies),
        ValueSpec::Union { variants, .. } => forall|i: int|
            0 <= i < variants@.len() ==> pointers_declared(
                (#[trigger] variants@[i]).fields@,
                dependencies,
            ),
        ValueSpec::List { inner, .. } => pointers_known(*inner, dependencies),
        _ => true,
    }
}

/// Does every pointer among the fields that looks into another package
/// look into a declared dependency?
pub open spec fn pointers_declared(fields: Seq<Field>, dependencies: Seq<(Seq<char>, DepInfo)>)
    -> bool
    decreases fields,
{
    forall|i: int| 0 <= i < fields.len() ==> pointers_known((#[trigger] fields[i]).spec, dependencies)
}

/// The first pointer of the schema that looks into a package that is no
/// declared dependency, with the path that leads to it: through the field of
/// an object under the name of the field, and through a variant of a union
/// under the name of the variant.
pub open spec fn undeclared(spec: ValueSpec, dependencies: Seq<(Seq<char>, DepInfo)>) -> Option<
    NoMatchView,
>
    decreases spec, 0nat,
{
    match spec {
        ValueSpec::Pointer(pointer) => match pointer {
            ValueSpecPointer::Package { package_id, .. } => if has_key(dependencies, package_id@) {
                None
            } else {
                Some(here(MatchErrorView::InvalidPointer(pointer@)))
            },
            ValueSpecPointer::System(_) => None,
        },
        ValueSpec::Object { fields, .. } => fields_undeclared(fields@, dependencies, 0),
        ValueSpec::Union { variants, .. } => variants_undeclared(variants@, dependencies, 0),
        ValueSpec::List { inner, .. } => undeclared(*inner, dependencies),
        _ => None,
    }
}

/// The first such pointer among the fields from `from` on.
pub open spec fn fields_undeclared(
    fields: Seq<Field>,
    dependencies: Seq<(Seq<char>, DepInfo)>,
    from: int,
) -> Option<NoMatchView>
    decreases fields, fields.len() - from + 1,
{
    if from < 0 || from >= fields.len() {
        None
    } else {
        match undeclared(fields[from].spec, dependencies) {
            Some(e) => Some(under(e, fields[from].name@)),
            None => fields_undeclared(fields, dependencies, from + 1),
        }
    }
}

/// The first such pointer among the variants from `from` on.
pub open spec fn variants_undeclared(
    variants: Seq<Variant>,
    dependencies: Seq<(Seq<char>, DepInfo)>,
    from: int,
) -> Option<NoMatchView>
    decreases variants, variants.len() - from + 1,
{
    if from < 0 || from >= variants.len() {
        None
    } else {
        match fields_undeclared(variants[from].fields@, dependencies, 0) {
            Some(e) => Some(under(e, variants[from].name@)),
            None => variants_undeclared(variants, dependencies, from + 1),
        }
    }
}

/// No pointer of the schema is undeclared exactly if every pointer is
/// known.
pub proof fn known_is_none_undeclared(spec: ValueSpec, dependencies: Seq<(Seq<char>, DepInfo)>)
    ensures
        undeclared(spec, dependencies) is None <==> pointers_known(spec, dependencies),
    decreases spec, 0nat,
{
    match spec {
        ValueSpec::Object { fields, .. } => {
            declared_is_none_undeclared(fields@, dependencies, 0);
            assert(pointers_known(spec, dependencies) == pointers_declared(fields@, dependencies));
        },
        ValueSpec::Union { variants, .. } => {
            declared_variants_are_none_undeclared(variants@, dependencies, 0);
        },
        ValueSpec::List { inner, .. } => {
            known_is_none_undeclared(*inner, dependencies);
        },
        _ => {},
    }
}

/// No pointer among the fields from `from` on is undeclared exactly if
/// every pointer of each of them is known.
pub proof fn declared_is_none_undeclared(
    fields: Seq<Field>,
    dependencies: Seq<(Seq<char>, DepInfo)>,
    from: int,
)
    requires
        0 <= from,
    ensures
        fields_undeclared(fields, dependencies, from) is None <==> forall|i: int|
            from <= i < fields.len() ==> pointers_known((#[trigger] fields[i]).spec, dependencies),
    decreases fields, fields.len() - from + 1,
{
    if from < fields.len() {
        known_is_none_undeclared(fields[from].spec, dependencies);
        declared_is_none_undeclared(fields, dependencies, from + 1);
        if fields_undeclared(fields, dependencies, from) is None {
            assert forall|i: int| from <= i < fields.len() implies pointers_known(
                (#[trigger] fields[i]).spec,
                dependencies,
            ) by {
                if i > from {
                }
            }
        }
    }
}

/// No pointer among the variants from `from` on is undeclared exactly if
/// every pointer of each of them is declared.
pub proof fn declared_variants_are_none_undeclared(
    variants: Seq<Variant>,
    dependencies: Seq<(Seq<char>, DepInfo)>,
    from: int,
)
    requires
        0 <= from,
    ensures
        variants_undeclared(variants, dependencies, from) is None <==> forall|i: int|
            from <= i < variants.len() ==> pointers_declared(
                (#[trigger] variants[i]).fields@,
                dependencies,
            ),
    decreases variants, variants.len() - from + 1,
{
    if from < variants.len() {
        declared_is_none_undeclared(variants[from].fields@, dependencies, 0);
        declared_variants_are_none_undeclared(variants, dependencies, from + 1);
        if variants_undeclared(variants, dependencies, from) is None {
            assert forall|i: int| from <= i < variants.len() implies pointers_declared(
                (#[trigger] variants[i]).fields@,
                dependencies,
            ) by {
                if i > from {
                }
            }
        }
    }
}

/// Checks the pointers of one schema.
fn check_pointer(spec: &ValueSpec, dependencies: &OrderedMap<DepInfo>) -> (r: Result<
    (),
    NoMatchWithPath,
>)
    ensures
        reports(r, undeclared(*spec, dependencies@)),
    decreases spec, 0nat,
{
    match spec {
        ValueSpec::Pointer(pointer) => match pointer {
            ValueSpecPointer::Package { package_id, .. } => {
                if dependencies.contains_key(package_id.as_str()) {
                    Ok(())
                } else {
                    unsound(MatchError::InvalidPointer(pointer.clone()))
                }
            },
            _ => Ok(()),
        },
        ValueSpec::Object { fields, .. } => check_pointers(fields, dependencies, 0),
        ValueSpec::Union { variants, .. } => check_variant_pointers(variants, dependencies, 0),
        ValueSpec::List { inner, .. } => check_pointer(inner, dependencies),
        _ => Ok(()),
    }
}

/// Checks the pointers of the fields from `from` on.
fn check_pointers(fields: &Vec<Field>, dependencies: &OrderedMap<DepInfo>, from: usize) -> (r:
    Result<(), NoMatchWithPath>)
    ensures
        reports(r, fields_undeclared(fields@, dependencies@, from as int)),
    decreases fields@, fields@.len() - from + 1,
{
    if from >= fields.len() {
        return Ok(());
    }
    match check_pointer(&fields[from].spec, dependencies) {
        Err(e) => Err(e.prepend(fields[from].name.clone())),
        Ok(()) => check_pointers(fields, dependencies, from + 1),
    }
}

/// Checks the pointers of the variants from `from` on.
fn check_variant_pointers(
    variants: &Vec<Variant>,
    dependencies: &OrderedMap<DepInfo>,
    from: usize,
) -> (r: Result<(), NoMatchWithPath>)
    ensures
        reports(r, variants_undeclared(variants@, dependencies@, from as int)),
    decreases variants@, variants@.len() - from + 1,
{
    if from >= variants.len() {
        return Ok(());
    }
    match check_pointers(&variants[from].fields, dependencies, 0) {
        Err(e) => Err(e.prepend(variants[from].name.clone())),
        Ok(()) => check_variant_pointers(variants, dependencies, from + 1),
    }
}

/// What is wrong with the schema of a package that declares these
/// dependencies: the first defect of a field; else a name that two fields
/// share; else the first pointer into a package that is no declared
/// dependency.
pub open spec fn config_defect(spec: ConfigSpec, dependencies: Seq<(Seq<char>, DepInfo)>) -> Option<
    NoMatchView,
> {
    match fields_defect(spec.0@, 0) {
        Some(e) => Some(e),
        None => match first_repeat(spec.0@, 0) {
            Some(j) => Some(here(MatchErrorView::InvalidKey(spec.0@[j].name@))),
            None => fields_undeclared(spec.0@, dependencies, 0),
        },
    }
}

impl ConfigSpec {
    /// Checks the schema of a package with the declared `dependencies`:
    /// `Ok` where the schema is sound and every pointer into another package
    /// looks into a declared dependency, and otherwise what is wrong first,
    /// with the path that leads to it.
    pub fn validate(&self, dependencies: &OrderedMap<DepInfo>) -> (r: Result<(), NoMatchWithPath>)
        ensures
            reports(r, config_defect(*self, dependencies@)),
            r is Ok <==> config_spec_sound(*self) && pointers_declared(self.0@, dependencies@),
    {
        proof {
            sound_fields_are_without_defect(self.0@, 0);
            no_repeat_is_distinct(self.0@, 0);
            declared_is_none_undeclared(self.0@, dependencies@, 0);
        }
        match validate_fields(&self.0, 0) {
            Err(e) => {
                return Err(e);
            },
            Ok(()) => {},
        }
        match names_distinct(&self.0) {
            Some(j) => {
                return unsound(MatchError::InvalidKey(self.0[j].name.clone()));
            },
            None => {},
        }
        check_pointers(&self.0, dependencies, 0)
    }
}

} // verus!
