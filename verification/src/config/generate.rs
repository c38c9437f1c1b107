//! Default generation: a configuration that matches a schema, made from
//! the schema's defaults.

use vstd::prelude::*;
use crate::config::{ConfigurationError, MatchError, NoMatchWithPath, TimeoutError};
use crate::config::spec::{
    fields_by_name, fields_match_one_by_one, fields_sound, fields_sound_each, fields_violation,
    find_variant, no_field_named, pattern_accepts, pattern_match, sound, variant_index,
    variant_names, variants_sound_each, violation, ConfigSpec, DefaultString, Field, ValueSpec,
};
use crate::config::value::{config_view, items_view, property, Json, JsonView, Property};
use crate::ordered_map::keys_distinct;
use crate::text::string_of;

verus! {

/// `rand::rngs::StdRng`: a source of chance, carried through as it is.
#[verifier::external_type_specification]
#[verifier::external_body]
pub struct ExStdRng(rand::rngs::StdRng);

/// `Rng::gen_range` over `0..n`: some number below `n`.
#[verifier::external_body]
fn random_below(rng: &mut rand::rngs::StdRng, n: usize) -> (r: usize)
    requires
        n > 0,
    ensures
        r < n,
{
    rand::Rng::gen_range(rng, 0..n)
}

/// Is `s` a text of `len` characters of `charset`, or the empty text
/// where there is nothing to draw from?
pub open spec fn drawn_from(charset: Seq<char>, len: usize, s: Seq<char>) -> bool {
    &&& s.len() == if charset.len() > 0 {
        len as int
    } else {
        0
    }
    &&& forall|i: int| 0 <= i < s.len() ==> charset.contains(#[trigger] s[i])
}

/// `len` characters, each drawn from `charset`; the empty text where there
/// is nothing to draw from.
fn entropy(charset: &Vec<char>, len: usize, rng: &mut rand::rngs::StdRng) -> (s: String)
    ensures
        drawn_from(charset@, len, s@),
{
    let mut out: Vec<char> = Vec::new();
    if charset.len() > 0 {
        let mut i: usize = 0;
        while i < len
            invariant
                i <= len,
                charset@.len() > 0,
                out@.len() == i,
                forall|j: int| 0 <= j < out@.len() ==> charset@.contains(#[trigger] out@[j]),
            decreases len - i,
        {
            let k = random_below(rng, charset.len());
            out.push(charset[k]);
            i = i + 1;
        }
    }
    string_of(&out)
}

/// Is `v` a value that the defaults of `spec` give? A boolean, an enum, a
/// list and a number give their default, a number without one gives null;
/// a string gives its literal default, or a text drawn from its charset, and
/// either has to match the pattern where there is one; an object gives one
/// property for each of its fields, in their order; a union gives the tag,
/// which names the default variant, and then the properties of that
/// variant; a pointer gives null until it is resolved.
pub open spec fn default_of(spec: ValueSpec, v: JsonView) -> bool
    decreases spec, 0nat,
{
    match spec {
        ValueSpec::Boolean { default } => v == JsonView::Bool(default),
        ValueSpec::Enum { default, .. } => v == JsonView::String(default@),
        ValueSpec::List { default, .. } => v == JsonView::Array(items_view(default@)),
        ValueSpec::Number { default, .. } => match default {
            Some(n) => v == (JsonView::Number {
                text: n.text@,
                floor: n.floor,
                integral: n.integral,
            }),
            None => v is Null,
        },
        ValueSpec::Object { fields, .. } => v matches JsonView::Object(props) && defaults_of(
            fields@,
            props,
            0,
            0,
        ),
        ValueSpec::String { pattern, default, .. } => match default {
            None => v is Null,
            Some(d) => v matches JsonView::String(s) && (match d {
                DefaultString::Literal(text) => s == text@,
                DefaultString::Entropy { charset, len } => drawn_from(charset@, len, s),
            }) && (pattern matches Some(p) ==> pattern_accepts(p.pattern@, s) == Some(true)),
        },
        ValueSpec::Union { tag, variants, default } => {
            &&& 0 <= variant_index(variants@, default@) < variants@.len()
            &&& v matches JsonView::Object(props) && props.len() > 0 && props[0] == (
                tag@,
                JsonView::String(default@),
            ) && defaults_of(variants@[variant_index(variants@, default@)].fields@, props, 1, 0)
        },
        ValueSpec::Pointer(_) => v is Null,
    }
}

/// Do the properties hold, from place `shift` on, what the defaults of the
/// fields from `from` on give: one property for each field, under its name
/// and in its place, and none besides?
pub open spec fn defaults_of(
    fields: Seq<Field>,
    props: Seq<(Seq<char>, JsonView)>,
    shift: int,
    from: int,
) -> bool
    decreases fields, fields.len() - from + 1,
{
    if from < 0 || from >= fields.len() {
        props.len() == fields.len() + shift
    } else {
        &&& 0 <= from + shift < props.len()
        &&& props[from + shift].0 == fields[from].name@
        &&& default_of(fields[from].spec, props[from + shift].1)
        &&& defaults_of(fields, props, shift, from + 1)
    }
}

/// Is generation from `spec` sure to give a value, whatever is drawn:
/// does every literal default match its pattern, is no text that has to
/// match a pattern left to chance, and does every union that is reached
/// name one of its variants?
pub open spec fn certain(spec: ValueSpec) -> bool
    decreases spec, 0nat,
{
    match spec {
        ValueSpec::Object { fields, .. } => fields_certain(fields@, 0),
        ValueSpec::String { pattern: Some(p), default: Some(d), .. } => match d {
            DefaultString::Literal(text) => pattern_accepts(p.pattern@, text@) == Some(true),
            DefaultString::Entropy { .. } => false,
        },
        ValueSpec::Union { variants, default, .. } => 0 <= variant_index(variants@, default@)
            < variants@.len() && fields_certain(
            variants@[variant_index(variants@, default@)].fields@,
            0,
        ),
        _ => true,
    }
}

/// Is generation from every field from `from` on sure to give a value?
pub open spec fn fields_certain(fields: Seq<Field>, from: int) -> bool
    decreases fields, fields.len() - from + 1,
{
    if from < 0 || from >= fields.len() {
        true
    } else {
        certain(fields[from].spec) && fields_certain(fields, from + 1)
    }
}

/// How generation may fail: by running out of tries, or at a union whose
/// default names none of its variants.
pub open spec fn generation_failure(e: ConfigurationError) -> bool {
    e is TimeoutError || (e matches ConfigurationError::NoMatch(m) && m.error is Union)
}

/// What generation ends in: a value that the defaults of the schema give,
/// or one of the two failures; a value for sure where the schema leaves
/// nothing to chance; and, for a sound schema, a value that matches it, or a
/// timeout.
pub open spec fn generated(spec: ValueSpec, r: Result<Json, ConfigurationError>) -> bool {
    &&& match r {
        Ok(v) => default_of(spec, v@),
        Err(e) => generation_failure(e) && !certain(spec),
    }
    &&& sound(spec) ==> match r {
        Ok(v) => violation(spec, v@) is None,
        Err(e) => e is TimeoutError,
    }
}

/// The same of the fields of an object.
pub open spec fn fields_generated(
    fields: Seq<Field>,
    r: Result<Vec<Property>, ConfigurationError>,
) -> bool {
    &&& match r {
        Ok(props) => defaults_of(fields, config_view(props@), 0, 0),
        Err(e) => generation_failure(e) && !fields_certain(fields, 0),
    }
    &&& fields_sound(fields, 0) && keys_distinct(fields_by_name(fields)) ==> match r {
        Ok(props) => fields_violation(fields, config_view(props@), 0) is None,
        Err(e) => e is TimeoutError,
    }
}

/// The properties made for the first `n` fields: one for each, under the
/// field's name, holding what the defaults of the field give, and matching
/// the field's schema where that is sound.
pub open spec fn made_for(fields: Seq<Field>, props: Seq<Property>, n: int) -> bool {
    &&& props.len() == n
    &&& forall|i: int|
        0 <= i < n ==> {
            &&& (#[trigger] props[i]).name@ == fields[i].name@
            &&& default_of(fields[i].spec, props[i].value@)
            &&& sound(fields[i].spec) ==> violation(fields[i].spec, props[i].value@) is None
        }
}

/// Generates the properties of the fields from `from` on and adds them to
/// `out`.
fn gen_fields(
    fields: &Vec<Field>,
    from: usize,
    rng: &mut rand::rngs::StdRng,
    timeout: &Option<u64>,
    out: Vec<Property>,
) -> (r: Result<Vec<Property>, ConfigurationError>)
    requires
        from <= fields@.len(),
        made_for(fields@, out@, from as int),
    ensures
        match r {
            Ok(props) => made_for(fields@, props@, fields@.len() as int),
            Err(e) => generation_failure(e) && !fields_certain(fields@, from as int) && (
            fields_sound(fields@, 0) ==> e is TimeoutError),
        },
    decreases fields@, fields@.len() - from + 1,
{
    if from >= fields.len() {
        return Ok(out);
    }
    let field = &fields[from];
    proof {
        if fields_sound(fields@, 0) {
            fields_sound_each(fields@, 0, from as int);
        }
    }
    match field.spec.gen(rng, timeout) {
        Err(e) => Err(e),
        Ok(value) => {
            let mut out = out;
            out.push(Property { name: field.name.clone(), value });
            gen_fields(fields, from + 1, rng, timeout, out)
        },
    }
}

/// Properties made for all the fields hold what the defaults of the
/// fields give; and so do they with more properties before them.
pub proof fn made_fields_are_defaults(
    fields: Seq<Field>,
    before: Seq<Property>,
    props: Seq<Property>,
    from: int,
)
    requires
        made_for(fields, props, fields.len() as int),
        0 <= from <= fields.len(),
    ensures
        defaults_of(fields, config_view(before + props), before.len() as int, from),
    decreases fields.len() - from,
{
    if from < fields.len() {
        assert((before + props)[from + before.len()] == props[from]);
        made_fields_are_defaults(fields, before, props, from + 1);
    }
}

/// Properties made for all the fields, which are sound and whose names are
/// distinct, are matched by the fields; and so are they with more
/// properties before them under names that no field has.
pub proof fn made_fields_match(fields: Seq<Field>, before: Seq<Property>, props: Seq<Property>)
    requires
        made_for(fields, props, fields.len() as int),
        fields_sound(fields, 0),
        keys_distinct(fields_by_name(fields)),
        forall|i: int|
            0 <= i < before.len() ==> no_field_named(fields, (#[trigger] before[i]).name@),
    ensures
        fields_violation(fields, config_view(before + props), 0) is None,
{
    let all = config_view(before + props);
    assert forall|i: int| 0 <= i < fields.len() implies violation(
        (#[trigger] fields[i]).spec,
        match property(all, fields[i].name@) {
            Some(v) => v,
            None => JsonView::Null,
        },
    ) is None by {
        let name = fields[i].name@;
        let at = before.len() + i;
        fields_sound_each(fields, 0, i);
        assert(props[i].name@ == name);
        assert(all[at] == (name, props[i].value@));
        crate::ordered_map::position_finds(all, name);
        let p = crate::ordered_map::position(all, name);
        assert(p <= at);
        if p < at {
            if p < before.len() {
                assert(all[p].0 == before[p].name@);
                assert(fields[i].name@ != before[p].name@);
            } else {
                let j = p - before.len();
                assert(all[p].0 == props[j].name@);
                assert(fields_by_name(fields)[j].0 != fields_by_name(fields)[i].0);
            }
        }
        assert(crate::ordered_map::has_key(all, name));
    }
    fields_match_one_by_one(fields, all, 0);
}

/// What was made for all the fields is what generation from them ends in.
proof fn made_is_generated(fields: Seq<Field>, props: Vec<Property>)
    requires
        made_for(fields, props@, fields.len() as int),
    ensures
        fields_generated(fields, Ok(props)),
{
    made_fields_are_defaults(fields, Seq::empty(), props@, 0);
    assert(Seq::<Property>::empty() + props@ =~= props@);
    if fields_sound(fields, 0) && keys_distinct(fields_by_name(fields)) {
        made_fields_match(fields, Seq::empty(), props@);
    }
}

impl ValueSpec {
    /// Generates a value from the defaults of the schema: a value that
    /// the defaults give, for sure where nothing is left to chance. A text
    /// that has to match a pattern is drawn again and again, at most as often
    /// as `timeout` allows. For a sound schema the value matches the schema,
    /// and the only failure is a timeout.
    #[verifier::loop_isolation(false)]
    pub fn gen(&self, rng: &mut rand::rngs::StdRng, timeout: &Option<u64>) -> (r: Result<
        Json,
        ConfigurationError,
    >)
        ensures
            generated(*self, r),
        decreases self, 0nat,
    {
        match self {
            ValueSpec::Boolean { default } => Ok(Json::Bool(*default)),
            ValueSpec::Enum { default, .. } => Ok(Json::String(default.clone())),
            ValueSpec::List { default, .. } => {
                let mut items: Vec<Json> = Vec::new();
                let mut i: usize = 0;
                while i < default.len()
                    invariant
                        i <= default@.len(),
                        items@.len() == i,
                        forall|j: int| 0 <= j < i ==> (#[trigger] items@[j])@ == default@[j]@,
                    decreases default@.len() - i,
                {
                    items.push(default[i].clone());
                    i = i + 1;
                }
                proof {
                    Json::array_view(items);
                    assert(items_view(items@) =~= items_view(default@));
                }
                Ok(Json::Array(items))
            },
            ValueSpec::Number { default, .. } => match default {
                Some(n) => Ok(Json::Number(n.clone())),
                None => Ok(Json::Null),
            },
            ValueSpec::Object { fields, .. } => {
                match gen_fields(fields, 0, rng, timeout, Vec::new()) {
                    Err(e) => Err(e),
                    Ok(props) => {
                        proof {
                            made_is_generated(fields@, props);
                            Json::object_view(props);
                        }
                        Ok(Json::Object(props))
                    },
                }
            },
            ValueSpec::String { pattern, default, .. } => match default {
                None => Ok(Json::Null),
                Some(DefaultString::Literal(s)) => match pattern {
                    None => Ok(Json::String(s.clone())),
                    Some(p) => match pattern_match(p.pattern.as_str(), s.as_str()) {
                        Some(true) => Ok(Json::String(s.clone())),
                        _ => Err(ConfigurationError::TimeoutError(TimeoutError)),
                    },
                },
                Some(DefaultString::Entropy { charset, len }) => match pattern {
                    None => Ok(Json::String(entropy(charset, *len, rng))),
                    Some(p) => {
                        let allowed: u64 = match timeout {
                            Some(n) => *n,
                            None => u64::MAX,
                        };
                        let mut tried: u64 = 0;
                        while tried < allowed
                            invariant
                                tried <= allowed,
                            decreases allowed - tried,
                        {
                            let candidate = entropy(charset, *len, rng);
                            match pattern_match(p.pattern.as_str(), candidate.as_str()) {
                                Some(true) => {
                                    return Ok(Json::String(candidate));
                                },
                                _ => {},
                            }
                            tried = tried + 1;
                        }
                        Err(ConfigurationError::TimeoutError(TimeoutError))
                    },
                },
            },
            ValueSpec::Union { tag, variants, default } => {
                match find_variant(variants, default.as_str()) {
                    None => Err(
                        ConfigurationError::NoMatch(
                            NoMatchWithPath::new(
                                MatchError::Union(default.clone(), variant_names(variants)),
                            ),
                        ),
                    ),
                    Some(i) => {
                        proof {
                            if sound(*self) {
                                variants_sound_each(variants@, tag@, 0, i as int);
                            }
                        }
                        let fields = &variants[i].fields;
                        match gen_fields(fields, 0, rng, timeout, Vec::new()) {
                            Err(e) => Err(e),
                            Ok(props) => {
                                let mut all: Vec<Property> = Vec::new();
                                all.push(
                                    Property {
                                        name: tag.clone(),
                                        value: Json::String(default.clone()),
                                    },
                                );
                                let ghost head = all@;
                                let mut props = props;
                                let ghost made = props@;
                                all.append(&mut props);
                                proof {
                                    assert(all@ =~= head + made);
                                    Json::object_view(all);
                                    let view = config_view(all@);
                                    assert(view[0] == (tag@, JsonView::String(default@)));
                                    made_fields_are_defaults(fields@, head, made, 0);
                                    if sound(*self) {
                                        made_fields_match(fields@, head, made);
                                        crate::ordered_map::position_finds(view, tag@);
                                        assert(crate::ordered_map::has_key(view, tag@));
                                        assert(crate::ordered_map::position(view, tag@) == 0);
                                    }
                                }
                                Ok(Json::Object(all))
                            },
                        }
                    },
                }
            },
            ValueSpec::Pointer(_) => Ok(Json::Null),
        }
    }
}

/// Is the schema of a configuration sound: are its fields, and do they
/// have distinct names?
pub open spec fn config_spec_sound(spec: ConfigSpec) -> bool {
    fields_sound(spec.0@, 0) && keys_distinct(fields_by_name(spec.0@))
}

impl ConfigSpec {
    /// Generates a configuration from the defaults of the schema: one
    /// property for each field, holding what the defaults of the field
    /// give, for sure where nothing is left to chance. For a sound schema
    /// the configuration matches it, and the only failure is a timeout.
    pub fn gen(&self, rng: &mut rand::rngs::StdRng, timeout: &Option<u64>) -> (r: Result<
        Vec<Property>,
        ConfigurationError,
    >)
        ensures
            fields_generated(self.0@, r),
    {
        match gen_fields(&self.0, 0, rng, timeout, Vec::new()) {
            Err(e) => Err(e),
            Ok(props) => {
                proof {
                    made_is_generated(self.0@, props);
                }
                Ok(props)
            },
        }
    }
}

} // verus!
