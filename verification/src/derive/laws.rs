//! What the two derives promise together and of every struct they accept.

use vstd::prelude::*;
use crate::derive::attrs::TypeTable;
use crate::derive::attrs::FieldAttrsV;
use crate::derive::derive_attr::attr_derives;
use crate::derive::fields::{column_fragments, fragment_of, spec_fields_attrs};
use crate::derive::into_row::{BindStepV, BoundV, all_binds, all_bounds, bind_of, has_column_field, push_all_unique, push_unique, spec_into_row_plan};
use crate::derive::model::{ColumnFragmentV, DeriveInputModel, FieldModel};
use crate::derive::schema::{IdStrategy, id_indices, lemma_fields_attrs_len, named_fields, spec_crudly_attrs, spec_schema_columns, spec_schema_plan};
use crate::derive::attrs::{ContainerAttrsV, field_item_step, fold_container_attrs, fold_container_items, fold_field_attrs, fold_field_items, spec_container_attrs, spec_field_attrs, empty_field_attrs};
use crate::derive::model::{Attr, AttrBody, ContainerKey, FieldKey, MetaItem, spec_container_key_name, spec_field_key_name};
use crate::naming::RenameAll;

verus! {

/// For a struct that derives both, `Schema::columns` lists all the columns including the id
/// column: the id column (when there is an id field) followed by exactly the columns of
/// `HasColumns::columns`, which excludes it.
pub proof fn lemma_schema_columns_are_row_columns(input: DeriveInputModel, json_feature: bool, types: &TypeTable)
    requires
        exists|i: int| 0 <= i < input.attrs@.len() && attr_derives(#[trigger] input.attrs@[i], "Schema"@),
        spec_schema_plan(input, json_feature, types) is Ok,
        spec_into_row_plan(input, json_feature, types) is Ok,
    ensures
        ({
            let schema = spec_schema_plan(input, json_feature, types)->Ok_0;
            let row = spec_into_row_plan(input, json_feature, types)->Ok_0;
            &&& schema.columns == row.columns
            &&& spec_schema_columns(schema) == match schema.id {
                Some(info) => seq![ColumnFragmentV::Push(info.column)] + row.columns,
                None => row.columns,
            }
        }),
{
}

/// Column pieces are given by some field that is neither skipped nor the id field.
proof fn lemma_fragments_nonempty(fields: Seq<FieldModel>, fas: Seq<FieldAttrsV>, rename_all: Option<RenameAll>, i: int)
    requires
        fas.len() >= fields.len(),
        0 <= i < fields.len(),
        !fas[i].skip && !fas[i].crudly_id,
    ensures
        column_fragments(fields, fas, rename_all).len() > 0,
    decreases fields.len(),
{
    let n = fields.len() - 1;
    if i < n {
        lemma_fragments_nonempty(fields.drop_last(), fas, rename_all, i);
    }
}

/// The column list of `HasColumns::columns` that the row derive emits is never empty (a
/// flattened type contributes its own columns, which are never empty either).
pub proof fn lemma_row_columns_nonempty(input: DeriveInputModel, json_feature: bool, types: &TypeTable)
    requires
        spec_into_row_plan(input, json_feature, types) is Ok,
    ensures
        spec_into_row_plan(input, json_feature, types)->Ok_0.columns.len() > 0,
{
    let schema_derived = exists|i: int| 0 <= i < input.attrs@.len() && attr_derives(#[trigger] input.attrs@[i], "Schema"@);
    let c = spec_container_attrs(input.attrs@, schema_derived)->Ok_0;
    let fields = named_fields(input);
    lemma_fields_attrs_len(fields, json_feature, types);
    let fas = spec_fields_attrs(fields, json_feature, types)->Ok_0;
    assert(has_column_field(fas));
    let i = choose|i: int| 0 <= i < fas.len() && !(#[trigger] fas[i]).skip && !fas[i].crudly_id;
    lemma_fragments_nonempty(fields, fas, c.rename_all, i);
}

/// One binding step per column piece, in the same order: a flattened field's own binding where
/// its type's columns are spliced in, and a single value where a single column stands.
pub open spec fn binds_match_columns(binds: Seq<BindStepV>, columns: Seq<ColumnFragmentV>) -> bool {
    &&& binds.len() == columns.len()
    &&& forall|k: int| 0 <= k < binds.len() ==> match #[trigger] binds[k] {
        BindStepV::Flatten(i) => columns[k] == ColumnFragmentV::Extend(i),
        _ => columns[k] is Push,
    }
}

proof fn lemma_match_concat(b1: Seq<BindStepV>, c1: Seq<ColumnFragmentV>, b2: Seq<BindStepV>, c2: Seq<ColumnFragmentV>)
    requires
        binds_match_columns(b1, c1),
        binds_match_columns(b2, c2),
    ensures
        binds_match_columns(b1 + b2, c1 + c2),
{
    assert forall|k: int| 0 <= k < (b1 + b2).len() implies match #[trigger] (b1 + b2)[k] {
        BindStepV::Flatten(i) => (c1 + c2)[k] == ColumnFragmentV::Extend(i),
        _ => (c1 + c2)[k] is Push,
    } by {
        if k < b1.len() {
            assert((b1 + b2)[k] == b1[k]);
            assert((c1 + c2)[k] == c1[k]);
        } else {
            assert((b1 + b2)[k] == b2[k - b1.len()]);
            assert((c1 + c2)[k] == c2[k - c1.len()]);
        }
    }
}

proof fn lemma_binds_match_prefix(fields: Seq<FieldModel>, fas: Seq<FieldAttrsV>, rename_all: Option<RenameAll>, n: nat)
    requires
        fas.len() == fields.len(),
        n <= fields.len(),
    ensures
        binds_match_columns(all_binds(fas.take(n as int)), column_fragments(fields.take(n as int), fas, rename_all)),
    decreases n,
{
    if n > 0 {
        let m = (n - 1) as nat;
        lemma_binds_match_prefix(fields, fas, rename_all, m);
        assert(fas.take(n as int).drop_last() =~= fas.take(m as int));
        assert(fields.take(n as int).drop_last() =~= fields.take(m as int));
        let fa = fas[m as int];
        assert(fas.take(n as int).last() == fa);
        assert(binds_match_columns(bind_of(fa, m), fragment_of(fields[m as int], fa, m, rename_all)));
        lemma_match_concat(all_binds(fas.take(m as int)), column_fragments(fields.take(m as int), fas, rename_all),
            bind_of(fa, m), fragment_of(fields[m as int], fa, m, rename_all));
    } else {
        assert(fas.take(0) =~= Seq::<FieldAttrsV>::empty());
        assert(fields.take(0) =~= Seq::<FieldModel>::empty());
    }
}

/// The row derive binds the values in the same order as `HasColumns::columns` lists the
/// columns: one binding step per column piece.
pub proof fn lemma_binds_follow_columns(input: DeriveInputModel, json_feature: bool, types: &TypeTable)
    requires
        spec_into_row_plan(input, json_feature, types) is Ok,
    ensures
        binds_match_columns(spec_into_row_plan(input, json_feature, types)->Ok_0.binds, spec_into_row_plan(input, json_feature, types)->Ok_0.columns),
{
    let schema_derived = exists|i: int| 0 <= i < input.attrs@.len() && attr_derives(#[trigger] input.attrs@[i], "Schema"@);
    let c = spec_container_attrs(input.attrs@, schema_derived)->Ok_0;
    let fields = named_fields(input);
    lemma_fields_attrs_len(fields, json_feature, types);
    let fas = spec_fields_attrs(fields, json_feature, types)->Ok_0;
    lemma_binds_match_prefix(fields, fas, c.rename_all, fields.len());
    assert(fas.take(fields.len() as int) =~= fas);
    assert(fields.take(fields.len() as int) =~= fields);
}

/// No bound twice.
pub open spec fn no_duplicates(bs: Seq<BoundV>) -> bool {
    forall|i: int, j: int| 0 <= i < j < bs.len() ==> bs[i] != bs[j]
}

proof fn lemma_push_all_unique(acc: Seq<BoundV>, more: Seq<BoundV>)
    requires
        no_duplicates(acc),
    ensures
        no_duplicates(push_all_unique(acc, more)),
    decreases more.len(),
{
    if more.len() > 0 {
        let next = push_unique(acc, more[0]);
        if !acc.contains(more[0]) {
            assert forall|i: int, j: int| 0 <= i < j < next.len() implies next[i] != next[j] by {
                if j == acc.len() {
                    assert(next[j] == more[0]);
                    assert(next[i] == acc[i]);
                }
            }
        }
        lemma_push_all_unique(next, more.drop_first());
    }
}

/// The bounds of the row impl name each bound once.
pub proof fn lemma_bounds_unique(fields: Seq<FieldModel>, fas: Seq<FieldAttrsV>)
    ensures
        no_duplicates(all_bounds(fields, fas)),
    decreases fields.len(),
{
    if fields.len() > 0 {
        lemma_bounds_unique(fields.drop_last(), fas);
        lemma_push_all_unique(all_bounds(fields.drop_last(), fas),
            crate::derive::into_row::field_bounds(fields.last().ty@, fas[fields.len() - 1]));
    }
}

/// Field `i` is marked `#[crudly(id)]`.
pub open spec fn marks_id(fas: Seq<FieldAttrsV>, i: int) -> bool {
    0 <= i < fas.len() && fas[i].crudly_id
}

/// The indices found are exactly the marked fields.
proof fn lemma_id_indices(fas: Seq<FieldAttrsV>)
    ensures
        forall|k: int| 0 <= k < id_indices(fas).len() ==> marks_id(fas, #[trigger] id_indices(fas)[k] as int),
        forall|i: int| marks_id(fas, i) ==> #[trigger] id_indices(fas).contains(i as nat),
    decreases fas.len(),
{
    if fas.len() > 0 {
        let prev = fas.drop_last();
        let n = (fas.len() - 1) as nat;
        lemma_id_indices(prev);
        let tail = if fas.last().crudly_id { seq![n] } else { Seq::<nat>::empty() };
        assert(id_indices(fas) == id_indices(prev) + tail);
        assert forall|k: int| 0 <= k < id_indices(fas).len() implies marks_id(fas, #[trigger] id_indices(fas)[k] as int) by {
            if k < id_indices(prev).len() {
                assert(id_indices(fas)[k] == id_indices(prev)[k]);
                assert(marks_id(prev, id_indices(prev)[k] as int));
            } else {
                assert(id_indices(fas)[k] == tail[k - id_indices(prev).len()]);
            }
        }
        assert forall|i: int| marks_id(fas, i) implies #[trigger] id_indices(fas).contains(i as nat) by {
            if i < n {
                assert(marks_id(prev, i));
                assert(id_indices(prev).contains(i as nat));
                let k = choose|k: int| 0 <= k < id_indices(prev).len() && id_indices(prev)[k] == i as nat;
                assert(id_indices(fas)[k] == i as nat);
            } else {
                assert(id_indices(fas)[id_indices(prev).len() as int] == n);
            }
        }
    }
}

/// The schema derive implements `HasId` exactly when one field is marked `#[crudly(id)]`, and
/// then for that field: with no marked field there is no id; with one, the id is that field;
/// two marked fields are refused. `db_ids` / `external_ids` are accepted only with an id
/// field, and the id's strategy is the explicit one, else database-assigned.
pub proof fn lemma_schema_id(input: DeriveInputModel, json_feature: bool, types: &TypeTable)
    requires
        spec_schema_plan(input, json_feature, types) is Ok,
    ensures
        ({
            let plan = spec_schema_plan(input, json_feature, types)->Ok_0;
            let fas = spec_fields_attrs(named_fields(input), json_feature, types)->Ok_0;
            let explicit = spec_crudly_attrs(input.attrs@)->Ok_0.explicit_id_strategy;
            &&& spec_fields_attrs(named_fields(input), json_feature, types) is Ok
            &&& fas.len() == named_fields(input).len()
            &&& plan.id is None ==> forall|i: int| !marks_id(fas, i)
            &&& plan.id matches Some(info) ==> {
                &&& marks_id(fas, info.field as int)
                &&& forall|i: int| marks_id(fas, i) ==> i == info.field
                &&& info.strategy == match explicit {
                    Some(s) => s,
                    None => IdStrategy::DbAssigned,
                }
            }
            &&& explicit is Some ==> plan.id is Some
        }),
{
    let fields = named_fields(input);
    lemma_fields_attrs_len(fields, json_feature, types);
    let fas = spec_fields_attrs(fields, json_feature, types)->Ok_0;
    lemma_id_indices(fas);
    let ids = id_indices(fas);
    if ids.len() == 1 {
        assert forall|i: int| marks_id(fas, i) implies i == ids[0] by {
            assert(ids.contains(i as nat));
        }
        assert(marks_id(fas, ids[0] as int));
    } else {
        assert forall|i: int| !marks_id(fas, i) by {
            if marks_id(fas, i) {
                assert(ids.contains(i as nat));
            }
        }
    }
}

/// The field a binding step binds.
pub open spec fn bind_field(b: BindStepV) -> nat {
    match b {
        BindStepV::Plain(i) => i,
        BindStepV::Json(i) => i,
        BindStepV::JsonNullable(i) => i,
        BindStepV::ToStringBind(i) => i,
        BindStepV::TryInto(i, _) => i,
        BindStepV::Flatten(i) => i,
    }
}

/// The binding steps bind, in field order and each once, exactly the fields below `n` that are
/// neither skipped nor the id field.
pub open spec fn binds_cover_fields(binds: Seq<BindStepV>, fas: Seq<FieldAttrsV>, n: nat) -> bool {
    &&& forall|k: int| 0 <= k < binds.len() ==> {
        let i = #[trigger] bind_field(binds[k]);
        &&& i < n
        &&& !fas[i as int].skip
        &&& !fas[i as int].crudly_id
    }
    &&& forall|k1: int, k2: int| 0 <= k1 < k2 < binds.len() ==> bind_field(binds[k1]) < bind_field(binds[k2])
    &&& forall|i: int| 0 <= i < n && !fas[i].skip && !fas[i].crudly_id ==>
        exists|k: int| 0 <= k < binds.len() && #[trigger] bind_field(binds[k]) == i
}

proof fn lemma_binds_cover_prefix(fas: Seq<FieldAttrsV>, n: nat)
    requires
        n <= fas.len(),
    ensures
        binds_cover_fields(all_binds(fas.take(n as int)), fas, n),
    decreases n,
{
    if n == 0 {
        assert(fas.take(0) =~= Seq::<FieldAttrsV>::empty());
    } else {
        let m = (n - 1) as nat;
        lemma_binds_cover_prefix(fas, m);
        assert(fas.take(n as int).drop_last() =~= fas.take(m as int));
        assert(fas.take(n as int).last() == fas[m as int]);
        let prev = all_binds(fas.take(m as int));
        let step = bind_of(fas[m as int], m);
        let all = all_binds(fas.take(n as int));
        assert(all == prev + step);
        assert(step.len() == 0 || (step.len() == 1 && bind_field(step[0]) == m
            && !fas[m as int].skip && !fas[m as int].crudly_id));
        assert forall|k: int| 0 <= k < all.len() implies {
            let i = #[trigger] bind_field(all[k]);
            &&& i < n
            &&& !fas[i as int].skip
            &&& !fas[i as int].crudly_id
        } by {
            if k < prev.len() {
                assert(all[k] == prev[k]);
                assert(bind_field(prev[k]) < m);
            } else {
                assert(all[k] == step[k - prev.len()]);
            }
        }
        assert forall|k1: int, k2: int| 0 <= k1 < k2 < all.len() implies bind_field(all[k1]) < bind_field(all[k2]) by {
            assert(all[k1] == prev[k1]);
            assert(bind_field(prev[k1]) < m);
            if k2 < prev.len() {
                assert(all[k2] == prev[k2]);
            } else {
                assert(all[k2] == step[k2 - prev.len()]);
            }
        }
        assert forall|i: int| 0 <= i < n && !fas[i].skip && !fas[i].crudly_id implies
            exists|k: int| 0 <= k < all.len() && #[trigger] bind_field(all[k]) == i by {
            if i < m {
                let k = choose|k: int| 0 <= k < prev.len() && #[trigger] bind_field(prev[k]) == i;
                assert(all[k] == prev[k]);
            } else {
                assert(all[prev.len() as int] == step[0]);
            }
        }
    }
}

/// The row derive binds, in field order and each exactly once, the fields that are neither
/// skipped nor the id field: the id is never bound.
pub proof fn lemma_binds_cover_fields(input: DeriveInputModel, json_feature: bool, types: &TypeTable)
    requires
        spec_into_row_plan(input, json_feature, types) is Ok,
    ensures
        spec_fields_attrs(named_fields(input), json_feature, types) is Ok,
        binds_cover_fields(
            spec_into_row_plan(input, json_feature, types)->Ok_0.binds,
            spec_fields_attrs(named_fields(input), json_feature, types)->Ok_0,
            named_fields(input).len(),
        ),
{
    let fields = named_fields(input);
    lemma_fields_attrs_len(fields, json_feature, types);
    let fas = spec_fields_attrs(fields, json_feature, types)->Ok_0;
    lemma_binds_cover_prefix(fas, fields.len());
    assert(fas.take(fields.len() as int) =~= fas);
}

/// How many of the items have the key `name`.
pub open spec fn key_count(items: Seq<MetaItem>, name: Seq<char>) -> nat
    decreases items.len(),
{
    if items.len() == 0 {
        0
    } else {
        (if items[0].key@ == name { 1nat } else { 0nat }) + key_count(items.drop_first(), name)
    }
}

/// How many items of the `#[sqlx(...)]` and `#[crudly(...)]` attributes (of a container or a
/// field) have the key `name`.
pub open spec fn attr_key_count(attrs: Seq<Attr>, name: Seq<char>) -> nat
    decreases attrs.len(),
{
    if attrs.len() == 0 {
        0
    } else {
        let here = if attrs[0].path@ == "sqlx"@ || attrs[0].path@ == "crudly"@ {
            match attrs[0].body {
                AttrBody::List(items) => key_count(items@, name),
                _ => 0,
            }
        } else {
            0
        };
        here + attr_key_count(attrs.drop_first(), name)
    }
}

pub(crate) proof fn lemma_push_contains<A>(s: Seq<A>, x: A, k: A)
    ensures
        s.push(x).contains(k) == (s.contains(k) || x == k),
{
    if s.contains(k) {
        let j = choose|j: int| 0 <= j < s.len() && s[j] == k;
        assert(s.push(x)[j] == k);
    }
    if x == k {
        assert(s.push(x)[s.len() as int] == k);
    }
    if s.push(x).contains(k) {
        let j = choose|j: int| 0 <= j < s.push(x).len() && s.push(x)[j] == k;
        if j < s.len() {
            assert(s[j] == k);
        }
    }
}

proof fn lemma_container_items_once(c: ContainerAttrsV, items: Seq<MetaItem>, crudly: bool, schema_derived: bool, k: ContainerKey)
    requires
        fold_container_items(Ok(c), items, crudly, schema_derived) is Ok,
    ensures
        ({
            let c2 = fold_container_items(Ok(c), items, crudly, schema_derived)->Ok_0;
            let n = key_count(items, spec_container_key_name(k));
            &&& n <= 1
            &&& c.keys.contains(k) ==> n == 0 && c2.keys.contains(k)
            &&& n == 1 ==> c2.keys.contains(k)
        }),
    decreases items.len(),
{
    if items.len() > 0 {
        let item = items[0];
        let next = if crudly {
            crate::derive::attrs::crudly_container_step(c, item, schema_derived)
        } else {
            crate::derive::attrs::sqlx_container_step(c, item)
        };
        reveal_with_fuel(fold_container_items, 2);
        reveal_strlit("rename_all");
        reveal_strlit("default");
        assert(next is Ok);
        let c1 = next->Ok_0;
        if item.key@ == "rename_all"@ {
            assert(c1.keys == c.keys.push(ContainerKey::RenameAll));
            lemma_push_contains(c.keys, ContainerKey::RenameAll, k);
            assert(!c.keys.contains(ContainerKey::RenameAll));
        } else if item.key@ == "default"@ {
            assert(c1.keys == c.keys.push(ContainerKey::Default));
            lemma_push_contains(c.keys, ContainerKey::Default, k);
            assert(!c.keys.contains(ContainerKey::Default));
        } else {
            assert(c1.keys == c.keys);
        }
        assert("rename_all"@ != "default"@) by {
            assert("rename_all"@.len() != "default"@.len());
        }
        match k {
            ContainerKey::RenameAll => assert(spec_container_key_name(k) == "rename_all"@),
            ContainerKey::Default => assert(spec_container_key_name(k) == "default"@),
        }
        assert(c1.keys.contains(k) == (c.keys.contains(k) || item.key@ == spec_container_key_name(k)));
        assert(item.key@ == spec_container_key_name(k) ==> !c.keys.contains(k));
        lemma_container_items_once(c1, items.drop_first(), crudly, schema_derived, k);
    }
}

proof fn lemma_container_attrs_once(c: ContainerAttrsV, attrs: Seq<Attr>, schema_derived: bool, k: ContainerKey)
    requires
        fold_container_attrs(Ok(c), attrs, schema_derived) is Ok,
    ensures
        ({
            let c2 = fold_container_attrs(Ok(c), attrs, schema_derived)->Ok_0;
            let n = attr_key_count(attrs, spec_container_key_name(k));
            &&& n <= 1
            &&& c.keys.contains(k) ==> n == 0 && c2.keys.contains(k)
            &&& n == 1 ==> c2.keys.contains(k)
        }),
    decreases attrs.len(),
{
    if attrs.len() > 0 {
        let attr = attrs[0];
        let next = crate::derive::attrs::container_attr_step(c, attr, schema_derived);
        reveal_with_fuel(fold_container_attrs, 2);
        assert(next is Ok);
        let c1 = next->Ok_0;
        if attr.path@ == "sqlx"@ || attr.path@ == "crudly"@ {
            match attr.body {
                AttrBody::List(items) => {
                    lemma_container_items_once(c, items@, attr.path@ != "sqlx"@, schema_derived, k);
                },
                _ => {},
            }
        }
        lemma_container_attrs_once(c1, attrs.drop_first(), schema_derived, k);
    }
}

/// The row derive's container keys `rename_all` and `default` are each given at most once
/// across `#[sqlx(...)]` and `#[crudly(...)]`: a container whose attributes are accepted names
/// neither twice.
pub proof fn lemma_container_keys_once(attrs: Seq<Attr>, schema_derived: bool)
    requires
        spec_container_attrs(attrs, schema_derived) is Ok,
    ensures
        attr_key_count(attrs, "rename_all"@) <= 1,
        attr_key_count(attrs, "default"@) <= 1,
{
    lemma_container_attrs_once(ContainerAttrsV { rename_all: None, container_default: false, keys: Seq::empty() }, attrs, schema_derived, ContainerKey::RenameAll);
    lemma_container_attrs_once(ContainerAttrsV { rename_all: None, container_default: false, keys: Seq::empty() }, attrs, schema_derived, ContainerKey::Default);
}

pub(crate) proof fn lemma_field_step_keys(f: FieldAttrsV, item: MetaItem, in_crudly: bool, k: FieldKey, types: &TypeTable)
    requires
        field_item_step(f, item, in_crudly, types) is Ok,
    ensures
        ({
            let f1 = field_item_step(f, item, in_crudly, types)->Ok_0;
            &&& f1.keys.contains(k) == (f.keys.contains(k) || item.key@ == spec_field_key_name(k))
            &&& item.key@ == spec_field_key_name(k) ==> !f.keys.contains(k)
        }),
{
    reveal_strlit("rename");
    reveal_strlit("try_from");
    reveal_strlit("try_into");
    reveal_strlit("default");
    reveal_strlit("flatten");
    reveal_strlit("skip");
    reveal_strlit("json");
    reveal_strlit("id");
    let f1 = field_item_step(f, item, in_crudly, types)->Ok_0;
    let key = item.key@;
    let kind = if key == "rename"@ {
        FieldKey::Rename
    } else if key == "try_from"@ {
        FieldKey::TryFrom
    } else if key == "try_into"@ {
        FieldKey::TryInto
    } else if key == "default"@ {
        FieldKey::Default
    } else if key == "flatten"@ {
        FieldKey::Flatten
    } else if key == "skip"@ {
        FieldKey::Skip
    } else if key == "json"@ {
        FieldKey::Json
    } else {
        FieldKey::Id
    };
    assert(f1.keys == f.keys.push(kind));
    assert(!f.keys.contains(kind));
    assert(key == spec_field_key_name(kind));
    lemma_push_contains(f.keys, kind, k);
    assert(key == spec_field_key_name(k) <==> kind == k) by {
        assert("try_from"@[4] != "try_into"@[4]);
        assert("default"@[0] != "flatten"@[0]);
        assert("skip"@[0] != "json"@[0]);
    }
}

proof fn lemma_field_items_once(f: FieldAttrsV, items: Seq<MetaItem>, in_crudly: bool, k: FieldKey, types: &TypeTable)
    requires
        fold_field_items(Ok(f), items, in_crudly, types) is Ok,
    ensures
        ({
            let f2 = fold_field_items(Ok(f), items, in_crudly, types)->Ok_0;
            let n = key_count(items, spec_field_key_name(k));
            &&& n <= 1
            &&& f.keys.contains(k) ==> n == 0 && f2.keys.contains(k)
            &&& n == 1 ==> f2.keys.contains(k)
        }),
    decreases items.len(),
{
    if items.len() > 0 {
        let next = field_item_step(f, items[0], in_crudly, types);
        reveal_with_fuel(fold_field_items, 2);
        assert(next is Ok);
        lemma_field_step_keys(f, items[0], in_crudly, k, types);
        lemma_field_items_once(next->Ok_0, items.drop_first(), in_crudly, k, types);
    }
}

proof fn lemma_field_attrs_once(f: FieldAttrsV, attrs: Seq<Attr>, k: FieldKey, types: &TypeTable)
    requires
        fold_field_attrs(Ok(f), attrs, types) is Ok,
    ensures
        ({
            let f2 = fold_field_attrs(Ok(f), attrs, types)->Ok_0;
            let n = attr_key_count(attrs, spec_field_key_name(k));
            &&& n <= 1
            &&& f.keys.contains(k) ==> n == 0 && f2.keys.contains(k)
            &&& n == 1 ==> f2.keys.contains(k)
        }),
    decreases attrs.len(),
{
    if attrs.len() > 0 {
        let attr = attrs[0];
        let next = crate::derive::attrs::field_attr_step(f, attr, types);
        reveal_with_fuel(fold_field_attrs, 2);
        assert(next is Ok);
        if attr.path@ == "sqlx"@ || attr.path@ == "crudly"@ {
            match attr.body {
                AttrBody::List(items) => {
                    lemma_field_items_once(f, items@, attr.path@ != "sqlx"@, k, types);
                },
                _ => {},
            }
        }
        lemma_field_attrs_once(next->Ok_0, attrs.drop_first(), k, types);
    }
}

/// Each field key (`rename`, `try_from`, `try_into`, `default`, `flatten`, `skip`, `json`,
/// `id`) is given at most once per field across `#[sqlx(...)]` and `#[crudly(...)]`: a field
/// whose attributes are accepted names none twice.
pub proof fn lemma_field_keys_once(field: FieldModel, json_feature: bool, k: FieldKey, types: &TypeTable)
    requires
        spec_field_attrs(field, json_feature, types) is Ok,
    ensures
        attr_key_count(field.attrs@, spec_field_key_name(k)) <= 1,
{
    lemma_field_attrs_once(empty_field_attrs(), field.attrs@, k, types);
}

/// Binding step `k` binds the field that gives column piece `k`, and the piece is that field's
/// own: its column, or the columns of its type when it is flattened.
pub open spec fn binds_belong_to_columns(
    binds: Seq<BindStepV>,
    columns: Seq<ColumnFragmentV>,
    fields: Seq<FieldModel>,
    fas: Seq<FieldAttrsV>,
    rename_all: Option<RenameAll>,
) -> bool {
    &&& binds.len() == columns.len()
    &&& forall|k: int| 0 <= k < binds.len() ==> {
        let i = #[trigger] bind_field(binds[k]);
        &&& i < fields.len()
        &&& fragment_of(fields[i as int], fas[i as int], i, rename_all) == seq![columns[k]]
    }
}

proof fn lemma_binds_belong_prefix(fields: Seq<FieldModel>, fas: Seq<FieldAttrsV>, rename_all: Option<RenameAll>, n: nat)
    requires
        fas.len() == fields.len(),
        n <= fields.len(),
    ensures
        binds_belong_to_columns(all_binds(fas.take(n as int)), column_fragments(fields.take(n as int), fas, rename_all),
            fields, fas, rename_all),
    decreases n,
{
    if n == 0 {
        assert(fas.take(0) =~= Seq::<FieldAttrsV>::empty());
        assert(fields.take(0) =~= Seq::<FieldModel>::empty());
    } else {
        let m = (n - 1) as nat;
        lemma_binds_belong_prefix(fields, fas, rename_all, m);
        assert(fas.take(n as int).drop_last() =~= fas.take(m as int));
        assert(fields.take(n as int).drop_last() =~= fields.take(m as int));
        assert(fas.take(n as int).last() == fas[m as int]);
        assert(fields.take(n as int).last() == fields[m as int]);
        let pb = all_binds(fas.take(m as int));
        let pc = column_fragments(fields.take(m as int), fas, rename_all);
        let sb = bind_of(fas[m as int], m);
        let sc = fragment_of(fields[m as int], fas[m as int], m, rename_all);
        let b = all_binds(fas.take(n as int));
        let c = column_fragments(fields.take(n as int), fas, rename_all);
        assert(b == pb + sb);
        assert(c == pc + sc);
        assert(sb.len() == sc.len());
        assert forall|k: int| 0 <= k < b.len() implies {
            let i = #[trigger] bind_field(b[k]);
            &&& i < fields.len()
            &&& fragment_of(fields[i as int], fas[i as int], i, rename_all) == seq![c[k]]
        } by {
            if k < pb.len() {
                assert(b[k] == pb[k]);
                assert(c[k] == pc[k]);
                assert(bind_field(pb[k]) < fields.len());
            } else {
                assert(b[k] == sb[0]);
                assert(c[k] == sc[0]);
                assert(bind_field(sb[0]) == m);
                assert(sc =~= seq![sc[0]]);
            }
        }
    }
}

/// The row derive binds, for each column piece of `HasColumns::columns` in turn, the value of
/// the field that gives it: step `k` binds the field whose column (or, flattened, whose type's
/// columns) stand at position `k`.
pub proof fn lemma_binds_belong_to_columns(input: DeriveInputModel, json_feature: bool, types: &TypeTable)
    requires
        spec_into_row_plan(input, json_feature, types) is Ok,
    ensures
        ({
            let schema_derived = exists|i: int| 0 <= i < input.attrs@.len() && attr_derives(#[trigger] input.attrs@[i], "Schema"@);
            let plan = spec_into_row_plan(input, json_feature, types)->Ok_0;
            &&& spec_container_attrs(input.attrs@, schema_derived) is Ok
            &&& spec_fields_attrs(named_fields(input), json_feature, types) is Ok
            &&& binds_belong_to_columns(plan.binds, plan.columns, named_fields(input),
                spec_fields_attrs(named_fields(input), json_feature, types)->Ok_0,
                spec_container_attrs(input.attrs@, schema_derived)->Ok_0.rename_all)
        }),
{
    let schema_derived = exists|i: int| 0 <= i < input.attrs@.len() && attr_derives(#[trigger] input.attrs@[i], "Schema"@);
    let c = spec_container_attrs(input.attrs@, schema_derived)->Ok_0;
    let fields = named_fields(input);
    lemma_fields_attrs_len(fields, json_feature, types);
    let fas = spec_fields_attrs(fields, json_feature, types)->Ok_0;
    lemma_binds_belong_prefix(fields, fas, c.rename_all, fields.len());
    assert(fas.take(fields.len() as int) =~= fas);
    assert(fields.take(fields.len() as int) =~= fields);
}

} // verus!
