//! What the attributes written on a struct and its fields do to the derived columns and
//! bindings, stated over the attributes as written.

use vstd::prelude::*;
use crate::derive::attrs::{
    ContainerAttrsV, FieldAttrsV, TypeTable, container_attr_step, crudly_container_step, empty_field_attrs, field_attr_step,
    field_item_step, fold_container_attrs, fold_container_items, fold_field_attrs, fold_field_items, spec_container_attrs,
    spec_field_attrs, sqlx_container_step,
};
use crate::derive::derive_attr::attr_derives;
use crate::derive::fields::{fragment_of, spec_fields_attrs};
use crate::derive::into_row::spec_into_row_plan;
use crate::derive::laws::{bind_field, lemma_binds_belong_to_columns, lemma_binds_cover_fields, lemma_field_step_keys, lemma_schema_id};
use crate::derive::model::{ColumnFragmentV, DeriveInputModel, FieldModel};
use crate::derive::schema::{id_indices, lemma_fields_attrs_len, named_fields, spec_schema_plan};
use crate::derive::model::{Attr, AttrBody, ContainerKey, FieldKey, MetaArg, MetaItem};
use crate::naming::rename_all_named;

verus! {

/// The items of an attribute that the derives read: those of a `#[sqlx(...)]` or
/// `#[crudly(...)]` list; none for any other attribute.
pub open spec fn list_items(attr: Attr) -> Seq<MetaItem> {
    if attr.path@ == "sqlx"@ || attr.path@ == "crudly"@ {
        match attr.body {
            AttrBody::List(items) => items@,
            _ => Seq::empty(),
        }
    } else {
        Seq::empty()
    }
}

/// Some item has the key `key`.
pub open spec fn has_key_in(items: Seq<MetaItem>, key: Seq<char>) -> bool {
    exists|j: int| 0 <= j < items.len() && (#[trigger] items[j]).key@ == key
}

/// Some item is `key = "value"`.
pub open spec fn has_str_in(items: Seq<MetaItem>, key: Seq<char>, value: Seq<char>) -> bool {
    exists|j: int| 0 <= j < items.len() && (#[trigger] items[j]).key@ == key && items[j].arg == MetaArg::Str(items[j].arg->Str_0)
        && items[j].arg->Str_0@ == value
}

/// Some `#[sqlx(...)]` / `#[crudly(...)]` item among the attributes has the key `key`.
pub open spec fn has_key_item(attrs: Seq<Attr>, key: Seq<char>) -> bool {
    exists|a: int| 0 <= a < attrs.len() && has_key_in(list_items(#[trigger] attrs[a]), key)
}

/// Some `#[sqlx(...)]` / `#[crudly(...)]` item among the attributes is `key = "value"`.
pub open spec fn has_str_item(attrs: Seq<Attr>, key: Seq<char>, value: Seq<char>) -> bool {
    exists|a: int| 0 <= a < attrs.len() && has_str_in(list_items(#[trigger] attrs[a]), key, value)
}

proof fn lemma_field_step_facts(f: FieldAttrsV, item: MetaItem, in_crudly: bool, types: &TypeTable)
    requires
        field_item_step(f, item, in_crudly, types) is Ok,
    ensures
        ({
            let f1 = field_item_step(f, item, in_crudly, types)->Ok_0;
            &&& item.key@ == "rename"@ ==> item.arg is Str && f1.rename == Some(item.arg->Str_0@)
                && !f.keys.contains(FieldKey::Rename)
            &&& item.key@ != "rename"@ ==> f1.rename == f.rename
            &&& f1.keys.contains(FieldKey::Rename) == (f.keys.contains(FieldKey::Rename) || item.key@ == "rename"@)
            &&& f1.skip == (f.skip || item.key@ == "skip"@)
            &&& f1.flatten == (f.flatten || item.key@ == "flatten"@)
            &&& f1.crudly_id == (f.crudly_id || item.key@ == "id"@)
        }),
{
    reveal_strlit("rename");
    reveal_strlit("try_from");
    reveal_strlit("try_into");
    reveal_strlit("default");
    reveal_strlit("flatten");
    reveal_strlit("skip");
    reveal_strlit("json");
    reveal_strlit("id");
    assert("try_from"@[4] != "try_into"@[4]);
    assert("default"@[0] != "flatten"@[0]);
    assert("skip"@[0] != "json"@[0]);
    lemma_field_step_keys(f, item, in_crudly, FieldKey::Rename, types);
    let f1 = field_item_step(f, item, in_crudly, types)->Ok_0;
    let key = item.key@;
    assert("id"@.len() == 2 && "skip"@.len() == 4 && "rename"@.len() == 6 && "flatten"@.len() == 7);
    assert(key == "skip"@ ==> key != "rename"@ && key != "flatten"@ && key != "id"@);
    assert(key == "flatten"@ ==> key != "rename"@ && key != "skip"@ && key != "id"@);
    assert(key == "id"@ ==> key != "rename"@ && key != "skip"@ && key != "flatten"@);
    assert(key == "rename"@ ==> key != "id"@ && key != "skip"@ && key != "flatten"@);
    if key == "rename"@ {
        assert(item.arg is Str);
        assert(f1.rename == Some(item.arg->Str_0@));
    } else if key == "try_from"@ || key == "try_into"@ {
        assert(f1.rename == f.rename && f1.skip == f.skip && f1.flatten == f.flatten && f1.crudly_id == f.crudly_id);
    } else if key == "default"@ {
        assert(f1.rename == f.rename && f1.skip == f.skip && f1.flatten == f.flatten && f1.crudly_id == f.crudly_id);
    } else if key == "flatten"@ {
        assert(f1.rename == f.rename && f1.skip == f.skip && f1.flatten && f1.crudly_id == f.crudly_id);
    } else if key == "skip"@ {
        assert(f1.rename == f.rename && f1.skip && f1.flatten == f.flatten && f1.crudly_id == f.crudly_id);
    } else if key == "json"@ {
        assert(f1.rename == f.rename && f1.skip == f.skip && f1.flatten == f.flatten && f1.crudly_id == f.crudly_id);
    } else {
        assert(key == "id"@);
        assert(f1.rename == f.rename && f1.skip == f.skip && f1.flatten == f.flatten && f1.crudly_id);
    }
}

proof fn lemma_field_items_facts(f: FieldAttrsV, items: Seq<MetaItem>, in_crudly: bool, types: &TypeTable, r: Seq<char>)
    requires
        fold_field_items(Ok(f), items, in_crudly, types) is Ok,
    ensures
        ({
            let f2 = fold_field_items(Ok(f), items, in_crudly, types)->Ok_0;
            &&& has_str_in(items, "rename"@, r) ==> f2.rename == Some(r)
            &&& f.keys.contains(FieldKey::Rename) ==> f2.rename == f.rename
            &&& !has_key_in(items, "rename"@) ==> f2.rename == f.rename
            &&& f2.keys.contains(FieldKey::Rename) == (f.keys.contains(FieldKey::Rename) || has_key_in(items, "rename"@))
            &&& f2.skip == (f.skip || has_key_in(items, "skip"@))
            &&& f2.flatten == (f.flatten || has_key_in(items, "flatten"@))
            &&& f2.crudly_id == (f.crudly_id || has_key_in(items, "id"@))
        }),
    decreases items.len(),
{
    if items.len() == 0 {
        assert(!has_key_in(items, "rename"@));
        assert(!has_key_in(items, "skip"@));
        assert(!has_key_in(items, "flatten"@));
        assert(!has_key_in(items, "id"@));
        assert(!has_str_in(items, "rename"@, r));
    } else {
        let item = items[0];
        let rest = items.drop_first();
        let next = field_item_step(f, item, in_crudly, types);
        reveal_with_fuel(fold_field_items, 2);
        assert(next is Ok);
        let f1 = next->Ok_0;
        lemma_field_step_facts(f, item, in_crudly, types);
        lemma_field_items_facts(f1, rest, in_crudly, types, r);
        assert forall|key: Seq<char>| has_key_in(items, key) == (item.key@ == key || has_key_in(rest, key)) by {
            if has_key_in(items, key) {
                let j = choose|j: int| 0 <= j < items.len() && (#[trigger] items[j]).key@ == key;
                if j > 0 {
                    assert(rest[j - 1] == items[j]);
                }
            }
            if has_key_in(rest, key) {
                let j = choose|j: int| 0 <= j < rest.len() && (#[trigger] rest[j]).key@ == key;
                assert(items[j + 1] == rest[j]);
            }
            if item.key@ == key {
                assert(items[0] == item);
            }
        }
        if has_str_in(items, "rename"@, r) {
            let j = choose|j: int| 0 <= j < items.len() && (#[trigger] items[j]).key@ == "rename"@
                && items[j].arg == MetaArg::Str(items[j].arg->Str_0) && items[j].arg->Str_0@ == r;
            if j > 0 {
                assert(rest[j - 1] == items[j]);
                assert(has_str_in(rest, "rename"@, r));
            } else {
                assert(f1.rename == Some(r));
                assert(f1.keys.contains(FieldKey::Rename));
            }
        }
    }
}

proof fn lemma_field_attrs_facts(f: FieldAttrsV, attrs: Seq<Attr>, types: &TypeTable, r: Seq<char>)
    requires
        fold_field_attrs(Ok(f), attrs, types) is Ok,
    ensures
        ({
            let f2 = fold_field_attrs(Ok(f), attrs, types)->Ok_0;
            &&& has_str_item(attrs, "rename"@, r) ==> f2.rename == Some(r)
            &&& f.keys.contains(FieldKey::Rename) ==> f2.rename == f.rename
            &&& !has_key_item(attrs, "rename"@) ==> f2.rename == f.rename
            &&& f2.keys.contains(FieldKey::Rename) == (f.keys.contains(FieldKey::Rename) || has_key_item(attrs, "rename"@))
            &&& f2.skip == (f.skip || has_key_item(attrs, "skip"@))
            &&& f2.flatten == (f.flatten || has_key_item(attrs, "flatten"@))
            &&& f2.crudly_id == (f.crudly_id || has_key_item(attrs, "id"@))
        }),
    decreases attrs.len(),
{
    if attrs.len() == 0 {
        assert(!has_key_item(attrs, "rename"@));
        assert(!has_key_item(attrs, "skip"@));
        assert(!has_key_item(attrs, "flatten"@));
        assert(!has_key_item(attrs, "id"@));
        assert(!has_str_item(attrs, "rename"@, r));
    } else {
        let attr = attrs[0];
        let rest = attrs.drop_first();
        let next = field_attr_step(f, attr, types);
        reveal_with_fuel(fold_field_attrs, 2);
        assert(next is Ok);
        let f1 = next->Ok_0;
        if attr.path@ == "sqlx"@ || attr.path@ == "crudly"@ {
            match attr.body {
                AttrBody::List(items) => {
                    lemma_field_items_facts(f, items@, attr.path@ != "sqlx"@, types, r);
                },
                _ => {},
            }
        } else {
            assert(list_items(attr) =~= Seq::<MetaItem>::empty());
        }
        let li = list_items(attr);
        assert(f1 == fold_field_items(Ok(f), li, attr.path@ != "sqlx"@, types)->Ok_0 || (li.len() == 0 && f1 == f));
        lemma_field_items_facts(f, li, attr.path@ != "sqlx"@, types, r);
        lemma_field_attrs_facts(f1, rest, types, r);
        assert forall|key: Seq<char>| has_key_item(attrs, key) == (has_key_in(li, key) || has_key_item(rest, key)) by {
            if has_key_item(attrs, key) {
                let a = choose|a: int| 0 <= a < attrs.len() && has_key_in(list_items(#[trigger] attrs[a]), key);
                if a > 0 {
                    assert(rest[a - 1] == attrs[a]);
                }
            }
            if has_key_item(rest, key) {
                let a = choose|a: int| 0 <= a < rest.len() && has_key_in(list_items(#[trigger] rest[a]), key);
                assert(attrs[a + 1] == rest[a]);
            }
            if has_key_in(li, key) {
                assert(attrs[0] == attr);
            }
        }
        assert(has_str_item(attrs, "rename"@, r) == (has_str_in(li, "rename"@, r) || has_str_item(rest, "rename"@, r))) by {
            if has_str_item(attrs, "rename"@, r) {
                let a = choose|a: int| 0 <= a < attrs.len() && has_str_in(list_items(#[trigger] attrs[a]), "rename"@, r);
                if a > 0 {
                    assert(rest[a - 1] == attrs[a]);
                }
            }
            if has_str_item(rest, "rename"@, r) {
                let a = choose|a: int| 0 <= a < rest.len() && has_str_in(list_items(#[trigger] rest[a]), "rename"@, r);
                assert(attrs[a + 1] == rest[a]);
            }
            if has_str_in(li, "rename"@, r) {
                assert(attrs[0] == attr);
            }
        }
    }
}

/// The attributes a field is accepted with hold its written `rename`, `skip`, `flatten` and
/// `id` items: a `rename = "r"` item gives the rename `r`; no `rename` item leaves it unset;
/// a `skip`, `flatten` or `id` item sets that flag, and none leaves it unset.
pub proof fn lemma_field_attrs_as_written(field: crate::derive::model::FieldModel, json_feature: bool, types: &TypeTable, r: Seq<char>)
    requires
        spec_field_attrs(field, json_feature, types) is Ok,
    ensures
        ({
            let fa = spec_field_attrs(field, json_feature, types)->Ok_0;
            &&& has_str_item(field.attrs@, "rename"@, r) ==> fa.rename == Some(r)
            &&& !has_key_item(field.attrs@, "rename"@) ==> fa.rename is None
            &&& fa.skip == has_key_item(field.attrs@, "skip"@)
            &&& fa.flatten == has_key_item(field.attrs@, "flatten"@)
            &&& fa.crudly_id == has_key_item(field.attrs@, "id"@)
        }),
{
    lemma_field_attrs_facts(empty_field_attrs(), field.attrs@, types, r);
}

proof fn lemma_container_step_facts(c: ContainerAttrsV, item: MetaItem, crudly: bool, schema_derived: bool)
    requires
        (if crudly { crudly_container_step(c, item, schema_derived) } else { sqlx_container_step(c, item) }) is Ok,
    ensures
        ({
            let c1 = (if crudly { crudly_container_step(c, item, schema_derived) } else { sqlx_container_step(c, item) })->Ok_0;
            &&& item.key@ == "rename_all"@ ==> item.arg is Str && rename_all_named(item.arg->Str_0@) is Some
                && c1.rename_all == rename_all_named(item.arg->Str_0@) && !c.keys.contains(ContainerKey::RenameAll)
            &&& item.key@ != "rename_all"@ ==> c1.rename_all == c.rename_all
            &&& c1.keys.contains(ContainerKey::RenameAll) == (c.keys.contains(ContainerKey::RenameAll) || item.key@ == "rename_all"@)
        }),
{
    reveal_strlit("rename_all");
    reveal_strlit("default");
    assert("rename_all"@.len() == 10 && "default"@.len() == 7);
    let c1 = (if crudly { crudly_container_step(c, item, schema_derived) } else { sqlx_container_step(c, item) })->Ok_0;
    if item.key@ == "rename_all"@ {
        assert(c1.keys == c.keys.push(ContainerKey::RenameAll));
        crate::derive::laws::lemma_push_contains(c.keys, ContainerKey::RenameAll, ContainerKey::RenameAll);
    } else if item.key@ == "default"@ {
        assert(c1.keys == c.keys.push(ContainerKey::Default));
        crate::derive::laws::lemma_push_contains(c.keys, ContainerKey::Default, ContainerKey::RenameAll);
    } else {
        assert(c1.keys == c.keys);
    }
}

proof fn lemma_container_items_facts(c: ContainerAttrsV, items: Seq<MetaItem>, crudly: bool, schema_derived: bool, v: Seq<char>)
    requires
        fold_container_items(Ok(c), items, crudly, schema_derived) is Ok,
    ensures
        ({
            let c2 = fold_container_items(Ok(c), items, crudly, schema_derived)->Ok_0;
            &&& has_str_in(items, "rename_all"@, v) ==> rename_all_named(v) is Some && c2.rename_all == rename_all_named(v)
            &&& c.keys.contains(ContainerKey::RenameAll) ==> c2.rename_all == c.rename_all
            &&& !has_key_in(items, "rename_all"@) ==> c2.rename_all == c.rename_all
            &&& c2.keys.contains(ContainerKey::RenameAll) == (c.keys.contains(ContainerKey::RenameAll) || has_key_in(items, "rename_all"@))
        }),
    decreases items.len(),
{
    if items.len() == 0 {
        assert(!has_key_in(items, "rename_all"@));
        assert(!has_str_in(items, "rename_all"@, v));
    } else {
        let item = items[0];
        let rest = items.drop_first();
        let next = if crudly { crudly_container_step(c, item, schema_derived) } else { sqlx_container_step(c, item) };
        reveal_with_fuel(fold_container_items, 2);
        assert(next is Ok);
        let c1 = next->Ok_0;
        lemma_container_step_facts(c, item, crudly, schema_derived);
        lemma_container_items_facts(c1, rest, crudly, schema_derived, v);
        assert(has_key_in(items, "rename_all"@) == (item.key@ == "rename_all"@ || has_key_in(rest, "rename_all"@))) by {
            if has_key_in(items, "rename_all"@) {
                let j = choose|j: int| 0 <= j < items.len() && (#[trigger] items[j]).key@ == "rename_all"@;
                if j > 0 {
                    assert(rest[j - 1] == items[j]);
                }
            }
            if has_key_in(rest, "rename_all"@) {
                let j = choose|j: int| 0 <= j < rest.len() && (#[trigger] rest[j]).key@ == "rename_all"@;
                assert(items[j + 1] == rest[j]);
            }
            if item.key@ == "rename_all"@ {
                assert(items[0] == item);
            }
        }
        if has_str_in(items, "rename_all"@, v) {
            let j = choose|j: int| 0 <= j < items.len() && (#[trigger] items[j]).key@ == "rename_all"@
                && items[j].arg == MetaArg::Str(items[j].arg->Str_0) && items[j].arg->Str_0@ == v;
            if j > 0 {
                assert(rest[j - 1] == items[j]);
                assert(has_str_in(rest, "rename_all"@, v));
            }
        }
    }
}

proof fn lemma_container_attrs_facts(c: ContainerAttrsV, attrs: Seq<Attr>, schema_derived: bool, v: Seq<char>)
    requires
        fold_container_attrs(Ok(c), attrs, schema_derived) is Ok,
    ensures
        ({
            let c2 = fold_container_attrs(Ok(c), attrs, schema_derived)->Ok_0;
            &&& has_str_item(attrs, "rename_all"@, v) ==> rename_all_named(v) is Some && c2.rename_all == rename_all_named(v)
            &&& c.keys.contains(ContainerKey::RenameAll) ==> c2.rename_all == c.rename_all
            &&& !has_key_item(attrs, "rename_all"@) ==> c2.rename_all == c.rename_all
            &&& c2.keys.contains(ContainerKey::RenameAll) == (c.keys.contains(ContainerKey::RenameAll) || has_key_item(attrs, "rename_all"@))
        }),
    decreases attrs.len(),
{
    if attrs.len() == 0 {
        assert(!has_key_item(attrs, "rename_all"@));
        assert(!has_str_item(attrs, "rename_all"@, v));
    } else {
        let attr = attrs[0];
        let rest = attrs.drop_first();
        let next = container_attr_step(c, attr, schema_derived);
        reveal_with_fuel(fold_container_attrs, 2);
        assert(next is Ok);
        let c1 = next->Ok_0;
        let li = list_items(attr);
        if attr.path@ == "sqlx"@ || attr.path@ == "crudly"@ {
            match attr.body {
                AttrBody::List(items) => {
                    lemma_container_items_facts(c, items@, attr.path@ != "sqlx"@, schema_derived, v);
                },
                _ => {},
            }
        } else {
            assert(li =~= Seq::<MetaItem>::empty());
            assert(!has_key_in(li, "rename_all"@));
            assert(!has_str_in(li, "rename_all"@, v));
        }
        lemma_container_attrs_facts(c1, rest, schema_derived, v);
        assert(has_key_item(attrs, "rename_all"@) == (has_key_in(li, "rename_all"@) || has_key_item(rest, "rename_all"@))) by {
            if has_key_item(attrs, "rename_all"@) {
                let a = choose|a: int| 0 <= a < attrs.len() && has_key_in(list_items(#[trigger] attrs[a]), "rename_all"@);
                if a > 0 {
                    assert(rest[a - 1] == attrs[a]);
                }
            }
            if has_key_item(rest, "rename_all"@) {
                let a = choose|a: int| 0 <= a < rest.len() && has_key_in(list_items(#[trigger] rest[a]), "rename_all"@);
                assert(attrs[a + 1] == rest[a]);
            }
            if has_key_in(li, "rename_all"@) {
                assert(attrs[0] == attr);
            }
        }
        assert(has_str_item(attrs, "rename_all"@, v) == (has_str_in(li, "rename_all"@, v) || has_str_item(rest, "rename_all"@, v))) by {
            if has_str_item(attrs, "rename_all"@, v) {
                let a = choose|a: int| 0 <= a < attrs.len() && has_str_in(list_items(#[trigger] attrs[a]), "rename_all"@, v);
                if a > 0 {
                    assert(rest[a - 1] == attrs[a]);
                }
            }
            if has_str_item(rest, "rename_all"@, v) {
                let a = choose|a: int| 0 <= a < rest.len() && has_str_in(list_items(#[trigger] rest[a]), "rename_all"@, v);
                assert(attrs[a + 1] == rest[a]);
            }
            if has_str_in(li, "rename_all"@, v) {
                assert(attrs[0] == attr);
            }
        }
    }
}

/// The container attributes the row derive accepts hold the written `rename_all`: a
/// `rename_all = "v"` item, in `#[sqlx(...)]` or `#[crudly(...)]`, gives the convention that
/// `v` names (it names one, or the struct is refused); no `rename_all` item gives none.
pub proof fn lemma_container_attrs_as_written(attrs: Seq<Attr>, schema_derived: bool, v: Seq<char>)
    requires
        spec_container_attrs(attrs, schema_derived) is Ok,
    ensures
        ({
            let c = spec_container_attrs(attrs, schema_derived)->Ok_0;
            &&& has_str_item(attrs, "rename_all"@, v) ==> rename_all_named(v) is Some && c.rename_all == rename_all_named(v)
            &&& !has_key_item(attrs, "rename_all"@) ==> c.rename_all is None
        }),
{
    lemma_container_attrs_facts(ContainerAttrsV { rename_all: None, container_default: false, keys: Seq::empty() }, attrs, schema_derived, v);
}

/// Field `i`'s entry of the attributes of all fields is that field's own attributes.
proof fn lemma_fields_attrs_at(fields: Seq<FieldModel>, json_feature: bool, types: &TypeTable, i: int)
    requires
        spec_fields_attrs(fields, json_feature, types) is Ok,
        0 <= i < fields.len(),
    ensures
        spec_field_attrs(fields[i], json_feature, types) is Ok,
        spec_fields_attrs(fields, json_feature, types)->Ok_0[i] == spec_field_attrs(fields[i], json_feature, types)->Ok_0,
    decreases fields.len(),
{
    lemma_fields_attrs_len(fields.drop_last(), json_feature, types);
    if i < fields.len() - 1 {
        assert(fields.drop_last()[i] == fields[i]);
        lemma_fields_attrs_at(fields.drop_last(), json_feature, types, i);
    }
}

/// The columns and bindings of the row derive follow the attributes as written. For field `fi`:
/// - a `skip` item (in `#[sqlx(...)]` or `#[crudly(...)]`) leaves it out: no binding step
///   binds it, so no column piece is its;
/// - a `rename = "r"` item names its column `r`, whatever the container's `rename_all`;
/// - without a `rename` item, a container item `rename_all = "v"` names its column by the
///   convention `v` names, applied to the field's name; without either, the column is the
///   field's name;
/// - a field with no `skip`, `flatten` or `id` item gives a column of its own, bound by some
///   step; a `flatten` item (without `skip` or `id`) puts the columns of its type in its place.
pub proof fn lemma_row_columns_as_written(input: DeriveInputModel, json_feature: bool, types: &TypeTable, fi: int, r: Seq<char>, v: Seq<char>)
    requires
        spec_into_row_plan(input, json_feature, types) is Ok,
        0 <= fi < named_fields(input).len(),
    ensures
        ({
            let plan = spec_into_row_plan(input, json_feature, types)->Ok_0;
            let field = named_fields(input)[fi];
            &&& plan.binds.len() == plan.columns.len()
            &&& has_key_item(field.attrs@, "skip"@) ==> forall|k: int| 0 <= k < plan.binds.len() ==> bind_field(#[trigger] plan.binds[k]) != fi
            &&& has_str_item(field.attrs@, "rename"@, r) ==> forall|k: int|
                0 <= k < plan.binds.len() && bind_field(#[trigger] plan.binds[k]) == fi && plan.columns[k] is Push
                    ==> plan.columns[k] == ColumnFragmentV::Push(r)
            &&& !has_key_item(field.attrs@, "rename"@) && has_str_item(input.attrs@, "rename_all"@, v) ==> forall|k: int|
                0 <= k < plan.binds.len() && bind_field(#[trigger] plan.binds[k]) == fi && plan.columns[k] is Push
                    ==> plan.columns[k] == ColumnFragmentV::Push(rename_all_named(v)->Some_0.spec_apply(field.ident@))
            &&& !has_key_item(field.attrs@, "rename"@) && !has_key_item(input.attrs@, "rename_all"@) ==> forall|k: int|
                0 <= k < plan.binds.len() && bind_field(#[trigger] plan.binds[k]) == fi && plan.columns[k] is Push
                    ==> plan.columns[k] == ColumnFragmentV::Push(field.ident@)
            &&& !has_key_item(field.attrs@, "skip"@) && !has_key_item(field.attrs@, "flatten"@) && !has_key_item(field.attrs@, "id"@)
                ==> exists|k: int| 0 <= k < plan.binds.len() && bind_field(#[trigger] plan.binds[k]) == fi && plan.columns[k] is Push
            &&& !has_key_item(field.attrs@, "skip"@) && has_key_item(field.attrs@, "flatten"@) && !has_key_item(field.attrs@, "id"@)
                ==> exists|k: int| 0 <= k < plan.binds.len() && bind_field(#[trigger] plan.binds[k]) == fi
                    && plan.columns[k] == ColumnFragmentV::Extend(fi as nat)
        }),
{
    let schema_derived = exists|i: int| 0 <= i < input.attrs@.len() && attr_derives(#[trigger] input.attrs@[i], "Schema"@);
    let plan = spec_into_row_plan(input, json_feature, types)->Ok_0;
    let fields = named_fields(input);
    let field = fields[fi];
    lemma_binds_belong_to_columns(input, json_feature, types);
    lemma_binds_cover_fields(input, json_feature, types);
    lemma_fields_attrs_len(fields, json_feature, types);
    let fas = spec_fields_attrs(fields, json_feature, types)->Ok_0;
    let c = spec_container_attrs(input.attrs@, schema_derived)->Ok_0;
    lemma_fields_attrs_at(fields, json_feature, types, fi);
    lemma_field_attrs_as_written(field, json_feature, types, r);
    lemma_container_attrs_as_written(input.attrs@, schema_derived, v);
    let fa = fas[fi];
    assert forall|k: int| 0 <= k < plan.binds.len() && bind_field(#[trigger] plan.binds[k]) == fi && plan.columns[k] is Push
        implies plan.columns[k] == fragment_of(field, fa, fi as nat, c.rename_all)[0] && !fa.flatten by {
        let b = bind_field(plan.binds[k]);
        assert(b == fi);
        assert(fields[b as int] == field);
        assert(fas[b as int] == fa);
        assert(fragment_of(fields[b as int], fas[b as int], b, c.rename_all) == seq![plan.columns[k]]);
        assert(fragment_of(field, fa, fi as nat, c.rename_all) == seq![plan.columns[k]]);
        assert(seq![plan.columns[k]][0] == plan.columns[k]);
    }
    if !has_key_item(field.attrs@, "skip"@) && !has_key_item(field.attrs@, "flatten"@) && !has_key_item(field.attrs@, "id"@) {
        assert(!fa.skip && !fa.crudly_id && !fa.flatten);
        let k = choose|k: int| 0 <= k < plan.binds.len() && #[trigger] bind_field(plan.binds[k]) == fi;
        let b = bind_field(plan.binds[k]);
        assert(fields[b as int] == field);
        assert(fas[b as int] == fa);
        assert(fragment_of(fields[b as int], fas[b as int], b, c.rename_all) == seq![plan.columns[k]]);
        assert(fragment_of(field, fa, fi as nat, c.rename_all)[0] == plan.columns[k]);
        assert(plan.columns[k] is Push);
    }
    if !has_key_item(field.attrs@, "skip"@) && has_key_item(field.attrs@, "flatten"@) && !has_key_item(field.attrs@, "id"@) {
        assert(!fa.skip && !fa.crudly_id && fa.flatten);
        let k = choose|k: int| 0 <= k < plan.binds.len() && #[trigger] bind_field(plan.binds[k]) == fi;
        let b = bind_field(plan.binds[k]);
        assert(fields[b as int] == field);
        assert(fas[b as int] == fa);
        assert(fragment_of(fields[b as int], fas[b as int], b, c.rename_all) == seq![plan.columns[k]]);
        assert(fragment_of(field, fa, fi as nat, c.rename_all)[0] == plan.columns[k]);
        assert(plan.columns[k] == ColumnFragmentV::Extend(fi as nat));
    }
}

/// The schema derive names the id column like every other column, from the id field's
/// attributes as written: its `rename = "r"` item gives `r`; without one, a container item
/// `rename_all = "v"` gives the convention `v` names applied to the field's name; without
/// either, the field's name.
pub proof fn lemma_schema_id_column_as_written(input: DeriveInputModel, json_feature: bool, types: &TypeTable, r: Seq<char>, v: Seq<char>)
    requires
        spec_schema_plan(input, json_feature, types) is Ok,
        spec_schema_plan(input, json_feature, types)->Ok_0.id is Some,
    ensures
        ({
            let info = spec_schema_plan(input, json_feature, types)->Ok_0.id->Some_0;
            let field = named_fields(input)[info.field as int];
            &&& info.field < named_fields(input).len()
            &&& has_str_item(field.attrs@, "rename"@, r) ==> info.column == r
            &&& !has_key_item(field.attrs@, "rename"@) && has_str_item(input.attrs@, "rename_all"@, v)
                ==> info.column == rename_all_named(v)->Some_0.spec_apply(field.ident@)
            &&& !has_key_item(field.attrs@, "rename"@) && !has_key_item(input.attrs@, "rename_all"@)
                ==> info.column == field.ident@
        }),
{
    let info = spec_schema_plan(input, json_feature, types)->Ok_0.id->Some_0;
    let fields = named_fields(input);
    lemma_schema_id(input, json_feature, types);
    let k = info.field as int;
    assert(k < fields.len());
    let field = fields[k];
    lemma_fields_attrs_len(fields, json_feature, types);
    lemma_fields_attrs_at(fields, json_feature, types, k);
    lemma_field_attrs_as_written(field, json_feature, types, r);
    lemma_container_attrs_as_written(input.attrs@, true, v);
}

} // verus!
