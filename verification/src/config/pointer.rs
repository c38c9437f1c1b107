//! Pointers: values of a configuration that are read from elsewhere, and
//! their refresh.

use vstd::prelude::*;
use crate::config::configure::selected;
use crate::config::spec::{
    fields_by_name, fields_match_one_by_one, fields_violation, find_variant, items_violation,
    no_field_named, variant_index, violation, ConfigSpec, Field, PackagePointerSpecVariant,
    SystemPointerSpec, ValueSpec, ValueSpecPointer,
};
use crate::config::value::{
    clone_config, config_view, find_property, get_property, items_view, property, Json, JsonView,
    Property,
};
use crate::db::{installed_at, AllPackageData, PackageDataEntry};
use crate::net::{ip_text, ip_to_string, HOST_IP};
use crate::ordered_map::{
    has_key, keys_distinct, lookup, position, position_finds, upsert, upsert_keeps_others,
    OrderedMap,
};
use crate::text::texts;

verus! {

/// Where pointers read from: the record, the configurations written in
/// this run, and the configurations that the other packages have now.
pub struct PointerSources<'a> {
    pub db: &'a AllPackageData,
    pub overrides: &'a OrderedMap<Vec<Property>>,
    pub configs: &'a OrderedMap<Vec<Property>>,
}

/// The sources as plain values.
pub struct SourcesView {
    pub db: Seq<(Seq<char>, PackageDataEntry)>,
    pub overrides: Seq<(Seq<char>, Vec<Property>)>,
    pub configs: Seq<(Seq<char>, Vec<Property>)>,
}

impl<'a> View for PointerSources<'a> {
    type V = SourcesView;

    open spec fn view(&self) -> SourcesView {
        SourcesView { db: self.db.0@, overrides: self.overrides@, configs: self.configs@ }
    }
}

/// The configuration of `package` that pointers read: the one written in
/// this run where there is one, and otherwise the one the package has.
pub open spec fn config_read(sources: SourcesView, package: Seq<char>) -> Option<
    Seq<(Seq<char>, JsonView)>,
> {
    match lookup(sources.overrides, package) {
        Some(c) => Some(config_view(c@)),
        None => match lookup(sources.configs, package) {
            Some(c) => Some(config_view(c@)),
            None => None,
        },
    }
}

/// An address, or null where there is none.
pub open spec fn address_value(address: Option<String>) -> JsonView {
    match address {
        Some(a) => JsonView::String(a@),
        None => JsonView::Null,
    }
}

/// What a pointer resolves to.
pub open spec fn resolved(pointer: ValueSpecPointer, sources: SourcesView) -> JsonView {
    match pointer {
        ValueSpecPointer::System(SystemPointerSpec::HostIp) => JsonView::String(ip_text(HOST_IP)),
        ValueSpecPointer::Package { package_id, target } => match target {
            PackagePointerSpecVariant::Config { selector, multi } => selected(
                texts(selector.0@),
                multi,
                match config_read(sources, package_id@) {
                    Some(c) => JsonView::Object(c),
                    None => JsonView::Null,
                },
            ),
            PackagePointerSpecVariant::TorAddress { interface } => match installed_at(
                sources.db,
                package_id@,
            ) {
                Some(installed) => match lookup(
                    installed.interface_info.addresses.0@,
                    interface@,
                ) {
                    Some(a) => address_value(a.tor_address),
                    None => JsonView::Null,
                },
                None => JsonView::Null,
            },
            PackagePointerSpecVariant::LanAddress { interface } => match installed_at(
                sources.db,
                package_id@,
            ) {
                Some(installed) => match lookup(
                    installed.interface_info.addresses.0@,
                    interface@,
                ) {
                    Some(a) => address_value(a.lan_address),
                    None => JsonView::Null,
                },
                None => JsonView::Null,
            },
        },
    }
}

fn address_json(address: &Option<String>) -> (v: Json)
    ensures
        v@ == address_value(*address),
{
    match address {
        Some(a) => Json::String(a.clone()),
        None => Json::Null,
    }
}

impl ValueSpecPointer {
    /// What the pointer resolves to.
    pub fn deref(&self, sources: &PointerSources) -> (v: Json)
        ensures
            v@ == resolved(*self, sources@),
    {
        match self {
            ValueSpecPointer::System(SystemPointerSpec::HostIp) => Json::String(
                ip_to_string(HOST_IP),
            ),
            ValueSpecPointer::Package { package_id, target } => match target {
                PackagePointerSpecVariant::Config { selector, multi } => {
                    let found = match sources.overrides.get(package_id.as_str()) {
                        Some(c) => Some(c),
                        None => sources.configs.get(package_id.as_str()),
                    };
                    match found {
                        Some(c) => {
                            let copy = clone_config(c);
                            proof {
                                Json::object_view(copy);
                            }
                            selector.select(*multi, &Json::Object(copy))
                        },
                        None => selector.select(*multi, &Json::Null),
                    }
                },
                PackagePointerSpecVariant::TorAddress { interface } => {
                    match sources.db.installed(package_id.as_str()) {
                        Some(installed) => {
                            match installed.interface_info.addresses.0.get(interface.as_str()) {
                                Some(a) => address_json(&a.tor_address),
                                None => Json::Null,
                            }
                        },
                        None => Json::Null,
                    }
                },
                PackagePointerSpecVariant::LanAddress { interface } => {
                    match sources.db.installed(package_id.as_str()) {
                        Some(installed) => {
                            match installed.interface_info.addresses.0.get(interface.as_str()) {
                                Some(a) => address_json(&a.lan_address),
                                None => Json::Null,
                            }
                        },
                        None => Json::Null,
                    }
                },
            },
        }
    }
}

/// The value of one field once the pointers are refreshed: a pointer takes
/// what it resolves to, whether the field was there or not; an object that
/// is there has its own fields refreshed, a union the fields of the variant
/// that its tag names, and a list each of its items; every other value
/// stays.
pub open spec fn refreshed_value(spec: ValueSpec, v: Option<JsonView>, sources: SourcesView)
    -> Option<JsonView>
    decreases spec, 0nat,
{
    match spec {
        ValueSpec::Pointer(p) => Some(resolved(p, sources)),
        ValueSpec::Object { fields, .. } => match v {
            Some(JsonView::Object(props)) => Some(
                JsonView::Object(refreshed(fields@, props, sources, 0)),
            ),
            _ => v,
        },
        ValueSpec::Union { tag, variants, .. } => match v {
            Some(JsonView::Object(props)) => match property(props, tag@) {
                Some(JsonView::String(name)) => if 0 <= variant_index(variants@, name)
                    < variants@.len() {
                    Some(
                        JsonView::Object(
                            refreshed(
                                variants@[variant_index(variants@, name)].fields@,
                                props,
                                sources,
                                0,
                            ),
                        ),
                    )
                } else {
                    v
                },
                _ => v,
            },
            _ => v,
        },
        ValueSpec::List { inner, .. } => match v {
            Some(JsonView::Array(items)) => Some(
                JsonView::Array(refreshed_items(*inner, items, sources, 0)),
            ),
            _ => v,
        },
        _ => v,
    }
}

/// An item of a list once the pointers are refreshed.
pub open spec fn refreshed_item(inner: ValueSpec, item: JsonView, sources: SourcesView)
    -> JsonView
    decreases inner, 1nat,
{
    match refreshed_value(inner, Some(item), sources) {
        Some(fresh) => fresh,
        None => item,
    }
}

/// The items once the pointers of those from `from` on are refreshed.
pub open spec fn refreshed_items(
    inner: ValueSpec,
    items: Seq<JsonView>,
    sources: SourcesView,
    from: int,
) -> Seq<JsonView>
    decreases inner, items.len() - from + 2,
{
    if from < 0 || from >= items.len() {
        items
    } else {
        refreshed_items(
            inner,
            items.update(from, refreshed_item(inner, items[from], sources)),
            sources,
            from + 1,
        )
    }
}

/// `props` with `value` under `name`, or as they are where there is no
/// value.
pub open spec fn put(props: Seq<(Seq<char>, JsonView)>, name: Seq<char>, value: Option<JsonView>)
    -> Seq<(Seq<char>, JsonView)> {
    match value {
        Some(v) => upsert(props, name, v),
        None => props,
    }
}

/// The properties once the pointers of the fields from `from` on are
/// refreshed.
pub open spec fn refreshed(
    fields: Seq<Field>,
    props: Seq<(Seq<char>, JsonView)>,
    sources: SourcesView,
    from: int,
) -> Seq<(Seq<char>, JsonView)>
    decreases fields, fields.len() - from + 1,
{
    if from < 0 || from >= fields.len() {
        props
    } else {
        refreshed(
            fields,
            put(
                props,
                fields[from].name@,
                refreshed_value(fields[from].spec, property(props, fields[from].name@), sources),
            ),
            sources,
            from + 1,
        )
    }
}

/// Does the schema hold no pointer?
pub open spec fn pointer_free(spec: ValueSpec) -> bool
    decreases spec,
{
    match spec {
        ValueSpec::Pointer(_) => false,
        ValueSpec::Object { fields, .. } => forall|i: int|
            0 <= i < fields@.len() ==> pointer_free((#[trigger] fields@[i]).spec),
        ValueSpec::Union { variants, .. } => forall|i: int, j: int|
            0 <= i < variants@.len() && 0 <= j < variants@[i].fields@.len() ==> pointer_free(
                (#[trigger] variants@[i].fields@[j]).spec,
            ),
        ValueSpec::List { inner, .. } => pointer_free(*inner),
        _ => true,
    }
}

/// Can the pointers of the schema be refreshed without harm: do no two
/// fields of an object or of a variant share a name, is no field of a
/// variant named like the tag, and does no list whose items have to differ
/// hold a pointer?
pub open spec fn refreshable(spec: ValueSpec) -> bool
    decreases spec,
{
    match spec {
        ValueSpec::Object { fields, .. } => keys_distinct(fields_by_name(fields@)) && forall|
            i: int,
        | 0 <= i < fields@.len() ==> refreshable((#[trigger] fields@[i]).spec),
        ValueSpec::Union { tag, variants, .. } => forall|i: int|
            0 <= i < variants@.len() ==> {
                &&& keys_distinct(fields_by_name((#[trigger] variants@[i]).fields@))
                &&& no_field_named(variants@[i].fields@, tag@)
                &&& forall|j: int|
                    0 <= j < variants@[i].fields@.len() ==> refreshable(
                        (#[trigger] variants@[i].fields@[j]).spec,
                    )
            },
        ValueSpec::List { inner, unique, .. } => refreshable(*inner) && (unique ==> pointer_free(
            *inner,
        )),
        _ => true,
    }
}

/// Can the pointers of the fields of a configuration be refreshed without
/// harm?
pub open spec fn fields_refreshable(fields: Seq<Field>) -> bool {
    keys_distinct(fields_by_name(fields)) && forall|i: int|
        0 <= i < fields.len() ==> refreshable((#[trigger] fields[i]).spec)
}

/// The value that a field is held against: the property of its name, or
/// null.
pub open spec fn value_for(props: Seq<(Seq<char>, JsonView)>, name: Seq<char>) -> JsonView {
    match property(props, name) {
        Some(v) => v,
        None => JsonView::Null,
    }
}

/// Fields without violation are matched one by one.
pub proof fn matched_fields_match_each(
    fields: Seq<Field>,
    props: Seq<(Seq<char>, JsonView)>,
    from: int,
    i: int,
)
    requires
        0 <= from <= i < fields.len(),
        fields_violation(fields, props, from) is None,
    ensures
        violation(fields[i].spec, value_for(props, fields[i].name@)) is None,
    decreases i - from,
{
    if from < i {
        matched_fields_match_each(fields, props, from + 1, i);
    }
}

/// Items without violation are matched one by one.
pub proof fn matched_items_match_each(inner: ValueSpec, items: Seq<JsonView>, from: int, i: int)
    requires
        0 <= from <= i < items.len(),
        items_violation(inner, items, from) is None,
    ensures
        violation(inner, items[i]) is None,
    decreases i - from,
{
    if from < i {
        matched_items_match_each(inner, items, from + 1, i);
    }
}

/// Where every item from `from` on matches, the items hold no violation.
pub proof fn items_match_one_by_one(inner: ValueSpec, items: Seq<JsonView>, from: int)
    requires
        0 <= from,
        forall|i: int| from <= i < items.len() ==> violation(inner, #[trigger] items[i]) is None,
    ensures
        items_violation(inner, items, from) is None,
    decreases items.len() - from,
{
    if from < items.len() {
        items_match_one_by_one(inner, items, from + 1);
    }
}

/// Putting a value under one name leaves what stands under every other
/// name.
pub proof fn put_keeps_others(
    props: Seq<(Seq<char>, JsonView)>,
    name: Seq<char>,
    value: JsonView,
    other: Seq<char>,
)
    ensures
        property(upsert(props, name, value), name) == Some(value),
        other != name ==> property(upsert(props, name, value), other) == property(props, other),
{
    upsert_keeps_others(props, name, value, other);
}

/// Putting back under a name what stands there changes nothing.
pub proof fn put_same(props: Seq<(Seq<char>, JsonView)>, name: Seq<char>)
    ensures
        put(props, name, property(props, name)) == props,
{
    position_finds(props, name);
    if has_key(props, name) {
        let at = position(props, name);
        assert(props.update(at, (name, props[at].1)) =~= props);
    }
}

/// What the items come to: as many as before, those before `from` as
/// they were, and each of the others refreshed.
pub proof fn refreshed_items_each(
    inner: ValueSpec,
    items: Seq<JsonView>,
    sources: SourcesView,
    from: int,
)
    requires
        0 <= from,
    ensures
        refreshed_items(inner, items, sources, from).len() == items.len(),
        forall|i: int|
            0 <= i < items.len() ==> #[trigger] refreshed_items(inner, items, sources, from)[i]
                == if i < from {
                items[i]
            } else {
                refreshed_item(inner, items[i], sources)
            },
    decreases items.len() - from,
{
    if from < items.len() {
        let next = items.update(from, refreshed_item(inner, items[from], sources));
        refreshed_items_each(inner, next, sources, from + 1);
    }
}

/// Refreshing changes nothing in the value of a schema that holds no
/// pointer.
pub proof fn refresh_without_pointers(spec: ValueSpec, v: Option<JsonView>, sources: SourcesView)
    requires
        pointer_free(spec),
    ensures
        refreshed_value(spec, v, sources) == v,
    decreases spec, 0nat,
{
    match spec {
        ValueSpec::Object { fields, .. } => match v {
            Some(JsonView::Object(props)) => {
                refresh_fields_without_pointers(fields@, props, sources, 0);
            },
            _ => {},
        },
        ValueSpec::Union { tag, variants, .. } => match v {
            Some(JsonView::Object(props)) => match property(props, tag@) {
                Some(JsonView::String(name)) => {
                    let at = variant_index(variants@, name);
                    if 0 <= at < variants@.len() {
                        assert forall|j: int| 0 <= j < variants@[at].fields@.len() implies
                            pointer_free((#[trigger] variants@[at].fields@[j]).spec) by {}
                        refresh_fields_without_pointers(variants@[at].fields@, props, sources, 0);
                    }
                },
                _ => {},
            },
            _ => {},
        },
        ValueSpec::List { inner, .. } => match v {
            Some(JsonView::Array(items)) => {
                refreshed_items_each(*inner, items, sources, 0);
                assert forall|i: int| 0 <= i < items.len() implies refreshed_item(
                    *inner,
                    #[trigger] items[i],
                    sources,
                ) == items[i] by {
                    refresh_without_pointers(*inner, Some(items[i]), sources);
                }
                assert(refreshed_items(*inner, items, sources, 0) =~= items);
            },
            _ => {},
        },
        _ => {},
    }
}

/// Refreshing changes nothing in the properties of fields that hold no
/// pointer.
pub proof fn refresh_fields_without_pointers(
    fields: Seq<Field>,
    props: Seq<(Seq<char>, JsonView)>,
    sources: SourcesView,
    from: int,
)
    requires
        0 <= from,
        forall|i: int| 0 <= i < fields.len() ==> pointer_free((#[trigger] fields[i]).spec),
    ensures
        refreshed(fields, props, sources, from) == props,
    decreases fields, fields.len() - from + 1,
{
    if from < fields.len() {
        let name = fields[from].name@;
        refresh_without_pointers(fields[from].spec, property(props, name), sources);
        put_same(props, name);
        refresh_fields_without_pointers(fields, props, sources, from + 1);
    }
}

/// Refreshing the fields leaves what stands under a name that no field
/// has.
pub proof fn refresh_keeps_others(
    fields: Seq<Field>,
    props: Seq<(Seq<char>, JsonView)>,
    sources: SourcesView,
    from: int,
    other: Seq<char>,
)
    requires
        0 <= from,
        no_field_named(fields, other),
    ensures
        property(refreshed(fields, props, sources, from), other) == property(props, other),
    decreases fields.len() - from,
{
    if from < fields.len() {
        let name = fields[from].name@;
        let value = refreshed_value(fields[from].spec, property(props, name), sources);
        let next = put(props, name, value);
        if value is Some {
            put_keeps_others(props, name, value->0, other);
        }
        refresh_keeps_others(fields, next, sources, from + 1, other);
    }
}

/// Refreshing the pointers of a value that matches its schema gives a
/// value that matches it, for a schema that can be refreshed without harm.
pub proof fn refreshed_value_matches(spec: ValueSpec, v: JsonView, sources: SourcesView)
    requires
        refreshable(spec),
        violation(spec, v) is None,
    ensures
        refreshed_value(spec, Some(v), sources) is Some,
        violation(spec, refreshed_value(spec, Some(v), sources)->0) is None,
    decreases spec, 0nat,
{
    match spec {
        ValueSpec::Object { fields, .. } => match v {
            JsonView::Object(props) => {
                refresh_preserves_match(fields@, props, sources, 0);
            },
            _ => {},
        },
        ValueSpec::Union { tag, variants, .. } => match v {
            JsonView::Object(props) => match property(props, tag@) {
                Some(JsonView::String(name)) => {
                    let at = variant_index(variants@, name);
                    if 0 <= at < variants@.len() {
                        let fields = variants@[at].fields@;
                        assert(keys_distinct(fields_by_name(variants@[at].fields@)));
                        assert forall|j: int| 0 <= j < fields.len() implies refreshable(
                            (#[trigger] fields[j]).spec,
                        ) by {
                            assert(refreshable(variants@[at].fields@[j].spec));
                        }
                        refresh_preserves_match(fields, props, sources, 0);
                        refresh_keeps_others(fields, props, sources, 0, tag@);
                    }
                },
                _ => {},
            },
            _ => {},
        },
        ValueSpec::List { inner, range, unique, .. } => match v {
            JsonView::Array(items) => {
                let fresh = refreshed_items(*inner, items, sources, 0);
                refreshed_items_each(*inner, items, sources, 0);
                assert forall|i: int| 0 <= i < fresh.len() implies violation(
                    *inner,
                    #[trigger] fresh[i],
                ) is None by {
                    matched_items_match_each(*inner, items, 0, i);
                    refreshed_value_matches(*inner, items[i], sources);
                }
                items_match_one_by_one(*inner, fresh, 0);
                if unique {
                    refresh_without_pointers(spec, Some(v), sources);
                }
            },
            _ => {},
        },
        _ => {},
    }
}

/// Refreshing the pointers of a configuration that matches its schema
/// gives a configuration that matches it, for a schema that can be refreshed
/// without harm.
pub proof fn refresh_preserves_match(
    fields: Seq<Field>,
    props: Seq<(Seq<char>, JsonView)>,
    sources: SourcesView,
    from: int,
)
    requires
        0 <= from,
        fields_refreshable(fields),
        fields_violation(fields, props, 0) is None,
    ensures
        fields_violation(fields, refreshed(fields, props, sources, from), 0) is None,
    decreases fields, fields.len() - from + 1,
{
    if from < fields.len() {
        let field = fields[from];
        let name = field.name@;
        let old_value = property(props, name);
        let new_value = refreshed_value(field.spec, old_value, sources);
        let next = put(props, name, new_value);
        assert forall|i: int| 0 <= i < fields.len() implies violation(
            (#[trigger] fields[i]).spec,
            value_for(next, fields[i].name@),
        ) is None by {
            matched_fields_match_each(fields, props, 0, i);
            if new_value is Some {
                put_keeps_others(props, name, new_value->0, fields[i].name@);
                if i != from {
                    assert(fields_by_name(fields)[i].0 != fields_by_name(fields)[from].0);
                } else if old_value is Some {
                    refreshed_value_matches(field.spec, old_value->0, sources);
                }
            }
        }
        fields_match_one_by_one(fields, next, 0);
        refresh_preserves_match(fields, next, sources, from + 1);
    }
}

/// Puts `value` under `name`: in place of the first property of that name,
/// or at the end where there is none.
pub fn put_property(props: &mut Vec<Property>, name: &str, value: Json)
    ensures
        config_view(final(props)@) == upsert(config_view(old(props)@), name@, value@),
{
    let ghost before = config_view(props@);
    proof {
        position_finds(before, name@);
    }
    match find_property(props, name) {
        Some(i) => {
            let taken = props.remove(i);
            props.insert(i, Property { name: taken.name, value });
            assert(config_view(props@) =~= before.update(i as int, (name@, value@)));
        },
        None => {
            props.push(Property { name: name.to_owned(), value });
            assert(config_view(props@) =~= before.push((name@, value@)));
        },
    }
}

/// Refreshes the pointers inside a value.
fn refresh_value(spec: &ValueSpec, value: Json, sources: &PointerSources) -> (r: Json)
    ensures
        refreshed_value(*spec, Some(value@), sources@) == Some(r@),
    decreases spec, 0nat,
{
    match spec {
        ValueSpec::Pointer(p) => p.deref(sources),
        ValueSpec::Object { fields, .. } => match value {
            Json::Object(props) => {
                proof {
                    Json::object_view(props);
                }
                let fresh = refresh_fields(fields, props, sources, 0);
                proof {
                    Json::object_view(fresh);
                }
                Json::Object(fresh)
            },
            other => other,
        },
        ValueSpec::Union { tag, variants, .. } => match value {
            Json::Object(props) => {
                proof {
                    Json::object_view(props);
                }
                let named = match get_property(&props, tag.as_str()) {
                    Some(Json::String(name)) => find_variant(variants, name.as_str()),
                    _ => None,
                };
                match named {
                    Some(i) => {
                        let fresh = refresh_fields(&variants[i].fields, props, sources, 0);
                        proof {
                            Json::object_view(fresh);
                        }
                        Json::Object(fresh)
                    },
                    None => Json::Object(props),
                }
            },
            other => other,
        },
        ValueSpec::List { inner, .. } => match value {
            Json::Array(items) => {
                proof {
                    Json::array_view(items);
                }
                let fresh = refresh_items(inner, items, sources, 0);
                proof {
                    Json::array_view(fresh);
                }
                Json::Array(fresh)
            },
            other => other,
        },
        _ => value,
    }
}

/// Refreshes the pointers of the items from `from` on.
fn refresh_items(inner: &ValueSpec, items: Vec<Json>, sources: &PointerSources, from: usize) -> (r:
    Vec<Json>)
    ensures
        items_view(r@) == refreshed_items(*inner, items_view(items@), sources@, from as int),
    decreases inner, items@.len() - from + 2,
{
    if from >= items.len() {
        return items;
    }
    let mut items = items;
    let ghost before = items_view(items@);
    let taken = items.remove(from);
    let fresh = refresh_value(inner, taken, sources);
    items.insert(from, fresh);
    assert(items_view(items@) =~= before.update(
        from as int,
        refreshed_item(*inner, before[from as int], sources@),
    ));
    refresh_items(inner, items, sources, from + 1)
}

/// Refreshes the pointers of the fields from `from` on.
fn refresh_fields(
    fields: &Vec<Field>,
    props: Vec<Property>,
    sources: &PointerSources,
    from: usize,
) -> (r: Vec<Property>)
    ensures
        config_view(r@) == refreshed(fields@, config_view(props@), sources@, from as int),
    decreases fields@, fields@.len() - from + 1,
{
    if from >= fields.len() {
        return props;
    }
    let field = &fields[from];
    let mut props = props;
    let ghost before = config_view(props@);
    proof {
        position_finds(before, field.name@);
    }
    match &field.spec {
        ValueSpec::Pointer(p) => {
            let value = p.deref(sources);
            put_property(&mut props, field.name.as_str(), value);
        },
        spec => {
            match find_property(&props, field.name.as_str()) {
                Some(i) => {
                    let taken = props.remove(i);
                    let ghost old_value = taken.value@;
                    let Property { name, value } = taken;
                    let value = refresh_value(spec, value, sources);
                    let ghost new_value = value@;
                    props.insert(i, Property { name, value });
                    proof {
                        assert(config_view(props@) =~= before.update(
                            i as int,
                            (field.name@, new_value),
                        ));
                        assert(property(before, field.name@) == Some(old_value));
                    }
                },
                None => {},
            }
        },
    }
    assert(config_view(props@) == put(
        before,
        field.name@,
        refreshed_value(field.spec, property(before, field.name@), sources@),
    ));
    refresh_fields(fields, props, sources, from + 1)
}

impl ConfigSpec {
    /// Refreshes the pointers of a configuration: every pointer of the
    /// schema is resolved anew and its value written into the configuration.
    /// A configuration that matched the schema before matches it after,
    /// provided that the schema can be refreshed without harm.
    pub fn update(&self, sources: &PointerSources, config: &mut Vec<Property>)
        ensures
            config_view(final(config)@) == refreshed(
                self.0@,
                config_view(old(config)@),
                sources@,
                0,
            ),
            fields_refreshable(self.0@) && fields_violation(
                self.0@,
                config_view(old(config)@),
                0,
            ) is None ==> fields_violation(self.0@, config_view(final(config)@), 0) is None,
    {
        let mut taken: Vec<Property> = Vec::new();
        let ghost before = config_view(config@);
        core::mem::swap(config, &mut taken);
        let fresh = refresh_fields(&self.0, taken, sources, 0);
        proof {
            if fields_refreshable(self.0@) && fields_violation(self.0@, before, 0) is None {
                refresh_preserves_match(self.0@, before, sources@, 0);
            }
        }
        *config = fresh;
    }
}

} // verus!
