//! The schema derive: the table name, the id field and its strategy, and the column list.

use vstd::prelude::*;
use crate::derive::attrs::{TypeTable, covers_texts, input_try_texts, parse_try_types};
use vstd::string::*;
use crate::derive::attrs::{FieldAttrs, FieldAttrsV, column_name_for_field, flag_arg_ok, parse_container_attrs, spec_column_name, spec_container_attrs, str_arg};
use crate::derive::fields::{attrs_views, collect_field_attrs, column_fragments, columns_for_fields, fragment_views, spec_fields_attrs};
use crate::derive::model::{Attr, AttrBody, ColumnFragment, ColumnFragmentV, DataModel, DeriveInputModel, FieldModel, FieldsModel, MacroError, MacroErrorV, MetaArg, MetaItem, SchemaKey, opt_chars};
use crate::naming::{RenameAll, infer_table_name, inferred_table_name, str_eq};

verus! {

/// Who assigns the ids of an entity.
#[derive(Copy, Clone, Debug, PartialEq, Eq, Structural)]
pub enum IdStrategy {
    /// The database (`#[crudly(db_ids)]`, the default).
    DbAssigned,
    /// The application (`#[crudly(external_ids)]`).
    External,
}

/// The schema keys read so far from `#[crudly(...)]` on the container.
pub struct SchemaAttrState {
    pub table: Option<String>,
    pub db_ids: bool,
    pub external_ids: bool,
    pub keys: Vec<SchemaKey>,
}

/// The plain value of a [`SchemaAttrState`].
pub struct SchemaAttrStateV {
    pub table: Option<Seq<char>>,
    pub db_ids: bool,
    pub external_ids: bool,
    pub keys: Seq<SchemaKey>,
}

impl View for SchemaAttrState {
    type V = SchemaAttrStateV;

    open spec fn view(&self) -> SchemaAttrStateV {
        SchemaAttrStateV { table: opt_chars(self.table), db_ids: self.db_ids, external_ids: self.external_ids, keys: self.keys@ }
    }
}

/// Records a schema key, refusing one given before.
pub open spec fn merge_schema_key(st: SchemaAttrStateV, key: SchemaKey) -> Result<SchemaAttrStateV, MacroErrorV> {
    if st.keys.contains(key) {
        Err(MacroErrorV::DuplicateSchemaKey(key))
    } else {
        Ok(SchemaAttrStateV { keys: st.keys.push(key), ..st })
    }
}

/// One item of `#[crudly(...)]` on the container, as the schema derive reads it: `table`,
/// `db_ids`, `external_ids`; the row keys `rename_all` and `default` are left to the row
/// attributes.
pub open spec fn schema_item_step(st: SchemaAttrStateV, item: MetaItem) -> Result<SchemaAttrStateV, MacroErrorV> {
    let key = item.key@;
    if key == "table"@ {
        match merge_schema_key(st, SchemaKey::Table) {
            Err(e) => Err(e),
            Ok(s2) => match str_arg(item.arg) {
                Err(e) => Err(e),
                Ok(t) => Ok(SchemaAttrStateV { table: Some(t), ..s2 }),
            },
        }
    } else if key == "db_ids"@ {
        match merge_schema_key(st, SchemaKey::DbIds) {
            Err(e) => Err(e),
            Ok(s2) => if flag_arg_ok(item.arg) { Ok(SchemaAttrStateV { db_ids: true, ..s2 }) } else { Err(MacroErrorV::ExpectedComma) },
        }
    } else if key == "external_ids"@ {
        match merge_schema_key(st, SchemaKey::ExternalIds) {
            Err(e) => Err(e),
            Ok(s2) => if flag_arg_ok(item.arg) { Ok(SchemaAttrStateV { external_ids: true, ..s2 }) } else { Err(MacroErrorV::ExpectedComma) },
        }
    } else if key == "rename_all"@ || key == "default"@ {
        Ok(st)
    } else {
        Err(MacroErrorV::UnknownSchemaKey)
    }
}

/// The items of one `#[crudly(...)]` attribute applied in order.
pub open spec fn fold_schema_items(acc: Result<SchemaAttrStateV, MacroErrorV>, items: Seq<MetaItem>) -> Result<SchemaAttrStateV, MacroErrorV>
    decreases items.len(),
{
    match acc {
        Err(e) => Err(e),
        Ok(st) => if items.len() == 0 {
            Ok(st)
        } else {
            fold_schema_items(schema_item_step(st, items[0]), items.drop_first())
        },
    }
}

/// What one container attribute does: only `#[crudly(...)]` is read.
pub open spec fn schema_attr_step(st: SchemaAttrStateV, attr: Attr) -> Result<SchemaAttrStateV, MacroErrorV> {
    if attr.path@ == "crudly"@ {
        match attr.body {
            AttrBody::List(items) => fold_schema_items(Ok(st), items@),
            _ => Err(MacroErrorV::ExpectedList),
        }
    } else {
        Ok(st)
    }
}

/// The container attributes applied in order.
pub open spec fn fold_schema_attrs(acc: Result<SchemaAttrStateV, MacroErrorV>, attrs: Seq<Attr>) -> Result<SchemaAttrStateV, MacroErrorV>
    decreases attrs.len(),
{
    match acc {
        Err(e) => Err(e),
        Ok(st) => if attrs.len() == 0 {
            Ok(st)
        } else {
            fold_schema_attrs(schema_attr_step(st, attrs[0]), attrs.drop_first())
        },
    }
}

/// The schema container attributes: the explicit table name, if any, and the explicit id
/// strategy, if any.
pub struct CrudlyAttrs {
    pub table: Option<String>,
    /// `None` means neither `db_ids` nor `external_ids` was supplied.
    pub explicit_id_strategy: Option<IdStrategy>,
}

/// The plain value of [`CrudlyAttrs`].
pub struct CrudlyAttrsV {
    pub table: Option<Seq<char>>,
    pub explicit_id_strategy: Option<IdStrategy>,
}

impl View for CrudlyAttrs {
    type V = CrudlyAttrsV;

    open spec fn view(&self) -> CrudlyAttrsV {
        CrudlyAttrsV { table: opt_chars(self.table), explicit_id_strategy: self.explicit_id_strategy }
    }
}

/// The schema container attributes of a struct, or why they are refused: `db_ids` and
/// `external_ids` exclude each other.
pub open spec fn spec_crudly_attrs(attrs: Seq<Attr>) -> Result<CrudlyAttrsV, MacroErrorV> {
    let init = SchemaAttrStateV { table: None, db_ids: false, external_ids: false, keys: Seq::empty() };
    match fold_schema_attrs(Ok(init), attrs) {
        Err(e) => Err(e),
        Ok(st) => if st.db_ids && st.external_ids {
            Err(MacroErrorV::ExclusiveIdStrategies)
        } else {
            Ok(CrudlyAttrsV {
                table: st.table,
                explicit_id_strategy: if st.external_ids {
                    Some(IdStrategy::External)
                } else if st.db_ids {
                    Some(IdStrategy::DbAssigned)
                } else {
                    None
                },
            })
        },
    }
}

fn merge_schema(st: &mut SchemaAttrState, key: SchemaKey) -> (res: Result<(), MacroError>)
    ensures
        match (res, merge_schema_key(old(st)@, key)) {
            (Ok(()), Ok(v)) => final(st)@ == v,
            (Err(e), Err(e2)) => e@ == e2,
            _ => false,
        },
        res is Err ==> *final(st) == *old(st),
{
    let mut i: usize = 0;
    while i < st.keys.len()
        invariant
            i <= st.keys.len(),
            forall|j: int| 0 <= j < i ==> st.keys@[j] != key,
        decreases st.keys.len() - i,
    {
        if st.keys[i] == key {
            return Err(MacroError::DuplicateSchemaKey(key));
        }
        i = i + 1;
    }
    st.keys.push(key);
    Ok(())
}

fn schema_item(st: &mut SchemaAttrState, item: &MetaItem) -> (res: Result<(), MacroError>)
    ensures
        match (res, schema_item_step(old(st)@, *item)) {
            (Ok(()), Ok(v)) => final(st)@ == v,
            (Err(e), Err(e2)) => e@ == e2,
            _ => false,
        },
{
    let key = item.key.as_str();
    if str_eq(key, "table") {
        merge_schema(st, SchemaKey::Table)?;
        match &item.arg {
            MetaArg::Str(t) => {
                st.table = Some(t.clone());
                Ok(())
            },
            MetaArg::NonStr => Err(MacroError::ExpectedStrLit),
            _ => Err(MacroError::ExpectedEq),
        }
    } else if str_eq(key, "db_ids") {
        merge_schema(st, SchemaKey::DbIds)?;
        st.db_ids = true;
        match &item.arg {
            MetaArg::Flag => Ok(()),
            _ => Err(MacroError::ExpectedComma),
        }
    } else if str_eq(key, "external_ids") {
        merge_schema(st, SchemaKey::ExternalIds)?;
        st.external_ids = true;
        match &item.arg {
            MetaArg::Flag => Ok(()),
            _ => Err(MacroError::ExpectedComma),
        }
    } else if str_eq(key, "rename_all") || str_eq(key, "default") {
        Ok(())
    } else {
        Err(MacroError::UnknownSchemaKey)
    }
}

fn schema_items(st: &mut SchemaAttrState, items: &Vec<MetaItem>) -> (res: Result<(), MacroError>)
    ensures
        match (res, fold_schema_items(Ok(old(st)@), items@)) {
            (Ok(()), Ok(v)) => final(st)@ == v,
            (Err(e), Err(e2)) => e@ == e2,
            _ => false,
        },
{
    let ghost target = fold_schema_items(Ok(st@), items@);
    assert(items@.skip(0) =~= items@);
    let mut i: usize = 0;
    while i < items.len()
        invariant
            i <= items.len(),
            fold_schema_items(Ok(st@), items@.skip(i as int)) == target,
            target == fold_schema_items(Ok(old(st)@), items@),
        decreases items.len() - i,
    {
        assert(items@.skip(i as int).drop_first() =~= items@.skip(i + 1));
        let ghost step = schema_item_step(st@, items@[i as int]);
        assert(fold_schema_items(Ok(st@), items@.skip(i as int)) == fold_schema_items(step, items@.skip(i + 1)));
        schema_item(st, &items[i])?;
        i = i + 1;
    }
    assert(items@.skip(items.len() as int) =~= Seq::<MetaItem>::empty());
    Ok(())
}

impl CrudlyAttrs {
    /// Reads `table`, `db_ids` and `external_ids` from the container's `#[crudly(...)]`
    /// attributes.
    pub fn parse(attrs: &Vec<Attr>) -> (res: Result<CrudlyAttrs, MacroError>)
        ensures
            match (res, spec_crudly_attrs(attrs@)) {
                (Ok(c), Ok(v)) => c@ == v,
                (Err(e), Err(e2)) => e@ == e2,
                _ => false,
            },
    {
        let mut st = SchemaAttrState { table: None, db_ids: false, external_ids: false, keys: Vec::new() };
        let ghost init = st@;
        let ghost target = fold_schema_attrs(Ok(init), attrs@);
        assert(attrs@.skip(0) =~= attrs@);
        let mut i: usize = 0;
        while i < attrs.len()
            invariant
                i <= attrs.len(),
                fold_schema_attrs(Ok(st@), attrs@.skip(i as int)) == target,
                target == fold_schema_attrs(Ok(init), attrs@),
                init == (SchemaAttrStateV { table: None, db_ids: false, external_ids: false, keys: Seq::empty() }),
            decreases attrs.len() - i,
        {
            assert(attrs@.skip(i as int).drop_first() =~= attrs@.skip(i + 1));
            let ghost step = schema_attr_step(st@, attrs@[i as int]);
            assert(fold_schema_attrs(Ok(st@), attrs@.skip(i as int)) == fold_schema_attrs(step, attrs@.skip(i + 1)));
            let attr = &attrs[i];
            if str_eq(attr.path.as_str(), "crudly") {
                match &attr.body {
                    AttrBody::List(items) => {
                        schema_items(&mut st, items)?;
                    },
                    _ => {
                        return Err(MacroError::ExpectedList);
                    },
                }
            }
            i = i + 1;
        }
        assert(attrs@.skip(attrs.len() as int) =~= Seq::<Attr>::empty());
        if st.db_ids && st.external_ids {
            return Err(MacroError::ExclusiveIdStrategies);
        }
        let explicit_id_strategy = if st.external_ids {
            Some(IdStrategy::External)
        } else if st.db_ids {
            Some(IdStrategy::DbAssigned)
        } else {
            None
        };
        Ok(CrudlyAttrs { table: st.table, explicit_id_strategy })
    }
}

/// The indices of the fields marked `#[crudly(id)]`, in order.
pub open spec fn id_indices(fas: Seq<FieldAttrsV>) -> Seq<nat>
    decreases fas.len(),
{
    if fas.len() == 0 {
        Seq::empty()
    } else {
        let n = (fas.len() - 1) as nat;
        id_indices(fas.drop_last()) + if fas.last().crudly_id { seq![n] } else { Seq::empty() }
    }
}

/// The id field: its index, column and strategy.
pub struct IdInfo {
    pub field: usize,
    pub column: String,
    pub strategy: IdStrategy,
}

/// The plain value of an [`IdInfo`].
pub struct IdInfoV {
    pub field: nat,
    pub column: Seq<char>,
    pub strategy: IdStrategy,
}

impl View for IdInfo {
    type V = IdInfoV;

    open spec fn view(&self) -> IdInfoV {
        IdInfoV { field: self.field as nat, column: self.column@, strategy: self.strategy }
    }
}

/// The `Option<IdInfo>` as a plain value.
pub open spec fn opt_id(o: Option<IdInfo>) -> Option<IdInfoV> {
    match o {
        Some(i) => Some(i@),
        None => None,
    }
}

/// The struct as the schema derive understands it.
pub struct CrudlyParsed {
    pub table_name: String,
    /// `None` when no field is marked with `#[crudly(id)]`.
    pub id_info: Option<IdInfo>,
    pub rename_all: Option<RenameAll>,
    pub field_attrs: Vec<FieldAttrs>,
}

/// The plain value of a [`CrudlyParsed`].
pub struct CrudlyParsedV {
    pub table_name: Seq<char>,
    pub id_info: Option<IdInfoV>,
    pub rename_all: Option<RenameAll>,
    pub field_attrs: Seq<FieldAttrsV>,
}

impl View for CrudlyParsed {
    type V = CrudlyParsedV;

    open spec fn view(&self) -> CrudlyParsedV {
        CrudlyParsedV {
            table_name: self.table_name@,
            id_info: opt_id(self.id_info),
            rename_all: self.rename_all,
            field_attrs: attrs_views(self.field_attrs@),
        }
    }
}

/// The named fields of a struct (none for anything else).
pub open spec fn named_fields(input: DeriveInputModel) -> Seq<FieldModel> {
    match input.data {
        DataModel::Struct(FieldsModel::Named(fields)) => fields@,
        _ => Seq::empty(),
    }
}

/// The struct as the schema derive understands it, or why it is refused. The table is the
/// explicit `table`, else the plural snake case of the struct's name. At most one field may be
/// marked `#[crudly(id)]`; its column is named like any column, and its strategy is the
/// explicit one, else database-assigned. An explicit strategy without an id field is refused.
pub open spec fn spec_crudly_parsed(input: DeriveInputModel, json_feature: bool, types: &TypeTable) -> Result<CrudlyParsedV, MacroErrorV> {
    match spec_crudly_attrs(input.attrs@) {
        Err(e) => Err(e),
        Ok(ca) => match spec_container_attrs(input.attrs@, true) {
            Err(e) => Err(e),
            Ok(c) => match input.data {
                DataModel::Enum => Err(MacroErrorV::SchemaOnEnum),
                DataModel::Union => Err(MacroErrorV::SchemaOnUnion),
                DataModel::Struct(FieldsModel::Named(fields)) => match spec_fields_attrs(fields@, json_feature, types) {
                    Err(e) => Err(e),
                    Ok(fas) => {
                        let ids = id_indices(fas);
                        let table = match ca.table {
                            Some(t) => t,
                            None => inferred_table_name(input.ident@),
                        };
                        if ids.len() == 0 {
                            if ca.explicit_id_strategy is Some {
                                Err(MacroErrorV::StrategyWithoutId)
                            } else {
                                Ok(CrudlyParsedV { table_name: table, id_info: None, rename_all: c.rename_all, field_attrs: fas })
                            }
                        } else if ids.len() == 1 {
                            let k = ids[0];
                            let strategy = match ca.explicit_id_strategy {
                                Some(s) => s,
                                None => IdStrategy::DbAssigned,
                            };
                            Ok(CrudlyParsedV {
                                table_name: table,
                                id_info: Some(IdInfoV { field: k, column: spec_column_name(fields@[k as int], fas[k as int], c.rename_all), strategy }),
                                rename_all: c.rename_all,
                                field_attrs: fas,
                            })
                        } else {
                            Err(MacroErrorV::MultipleIds)
                        }
                    },
                },
                DataModel::Struct(_) => Err(MacroErrorV::SchemaNeedsNamedFields),
            },
        },
    }
}

/// The indices of the fields marked `#[crudly(id)]`.
pub fn id_field_indices(fas: &Vec<FieldAttrs>) -> (res: Vec<usize>)
    ensures
        res@.map_values(|i: usize| i as nat) == id_indices(attrs_views(fas@)),
        forall|k: int| 0 <= k < res@.len() ==> res@[k] < fas.len(),
{
    let ghost all = attrs_views(fas@);
    let mut out: Vec<usize> = Vec::new();
    let mut i: usize = 0;
    assert(all.take(0).len() == 0);
    assert(out@.map_values(|i: usize| i as nat) =~= Seq::<nat>::empty());
    while i < fas.len()
        invariant
            i <= fas.len(),
            all == attrs_views(fas@),
            out@.map_values(|i: usize| i as nat) == id_indices(all.take(i as int)),
            forall|k: int| 0 <= k < out@.len() ==> out@[k] < i,
        decreases fas.len() - i,
    {
        let ghost before = out@;
        assert(all.take(i as int + 1).drop_last() =~= all.take(i as int));
        assert(all.take(i as int + 1).last() == fas@[i as int]@);
        if fas[i].crudly_id {
            out.push(i);
            assert(out@.map_values(|i: usize| i as nat) =~= before.map_values(|i: usize| i as nat) + seq![i as nat]);
        } else {
            assert(out@.map_values(|i: usize| i as nat) =~= before.map_values(|i: usize| i as nat) + Seq::<nat>::empty());
        }
        i = i + 1;
    }
    assert(all.take(fas.len() as int) =~= all);
    out
}

impl CrudlyParsed {
    /// Reads the struct for the schema derive.
    pub fn parse(input: &DeriveInputModel, json_feature: bool, types: &TypeTable) -> (res: Result<CrudlyParsed, MacroError>)
        ensures
            match (res, spec_crudly_parsed(*input, json_feature, types)) {
                (Ok(p), Ok(v)) => p@ == v,
                (Err(e), Err(e2)) => e@ == e2,
                _ => false,
            },
    {
        let attrs = CrudlyAttrs::parse(&input.attrs)?;
        let container = parse_container_attrs(&input.attrs, true)?;
        let fields = match &input.data {
            DataModel::Enum => return Err(MacroError::SchemaOnEnum),
            DataModel::Union => return Err(MacroError::SchemaOnUnion),
            DataModel::Struct(FieldsModel::Named(fields)) => fields,
            DataModel::Struct(_) => return Err(MacroError::SchemaNeedsNamedFields),
        };
        let field_attrs = collect_field_attrs(fields, json_feature, types)?;
        proof {
            lemma_fields_attrs_len(fields@, json_feature, types);
        }
        let ids = id_field_indices(&field_attrs);
        let table_name = match &attrs.table {
            Some(t) => t.clone(),
            None => infer_table_name(input.ident.as_str()),
        };
        let ghost idv = ids@.map_values(|i: usize| i as nat);
        assert(idv.len() == ids.len());
        let id_info = if ids.len() == 0 {
            if attrs.explicit_id_strategy.is_some() {
                return Err(MacroError::StrategyWithoutId);
            }
            None
        } else if ids.len() == 1 {
            let k = ids[0];
            assert(idv[0] == k as nat);
            assert(field_attrs@[k as int]@ == attrs_views(field_attrs@)[k as int]);
            let column = column_name_for_field(&fields[k], &field_attrs[k], container.rename_all);
            let strategy = match attrs.explicit_id_strategy {
                Some(s) => s,
                None => IdStrategy::DbAssigned,
            };
            Some(IdInfo { field: k, column, strategy })
        } else {
            return Err(MacroError::MultipleIds);
        };
        Ok(CrudlyParsed { table_name, id_info, rename_all: container.rename_all, field_attrs })
    }
}

/// What the schema derive emits, as plain values: the table name; the id field (then `HasId`
/// and the marker of its strategy are implemented, else `NoId`); and the column pieces that
/// follow the id column in `Schema::columns`.
pub struct SchemaPlan {
    pub table_name: String,
    pub id: Option<IdInfo>,
    pub columns: Vec<ColumnFragment>,
}

/// The plain value of a [`SchemaPlan`].
pub struct SchemaPlanV {
    pub table_name: Seq<char>,
    pub id: Option<IdInfoV>,
    pub columns: Seq<ColumnFragmentV>,
}

impl View for SchemaPlan {
    type V = SchemaPlanV;

    open spec fn view(&self) -> SchemaPlanV {
        SchemaPlanV { table_name: self.table_name@, id: opt_id(self.id), columns: fragment_views(self.columns@) }
    }
}

/// The column list of `Schema::columns`: the id column first when there is an id field, then the
/// column pieces of the other fields.
pub open spec fn spec_schema_columns(plan: SchemaPlanV) -> Seq<ColumnFragmentV> {
    match plan.id {
        Some(info) => seq![ColumnFragmentV::Push(info.column)] + plan.columns,
        None => plan.columns,
    }
}

fn clone_fragment(f: &ColumnFragment) -> (res: ColumnFragment)
    ensures
        res@ == f@,
{
    match f {
        ColumnFragment::Push(c) => ColumnFragment::Push(c.clone()),
        ColumnFragment::Extend(i) => ColumnFragment::Extend(*i),
    }
}

impl SchemaPlan {
    /// The column list of `Schema::columns`, the id column first.
    pub fn schema_columns(&self) -> (res: Vec<ColumnFragment>)
        ensures
            fragment_views(res@) == spec_schema_columns(self@),
    {
        let mut out: Vec<ColumnFragment> = Vec::new();
        match &self.id {
            Some(info) => out.push(ColumnFragment::Push(info.column.clone())),
            None => {},
        }
        let ghost head = fragment_views(out@);
        let ghost all = fragment_views(self.columns@);
        assert(all.take(0) =~= Seq::<ColumnFragmentV>::empty());
        assert(head + all.take(0) =~= head);
        let mut i: usize = 0;
        while i < self.columns.len()
            invariant
                i <= self.columns.len(),
                all == fragment_views(self.columns@),
                fragment_views(out@) == head + all.take(i as int),
            decreases self.columns.len() - i,
        {
            let ghost before = out@;
            out.push(clone_fragment(&self.columns[i]));
            assert(fragment_views(out@) =~= fragment_views(before).push(all[i as int]));
            assert(all.take(i + 1) =~= all.take(i as int).push(all[i as int]));
            i = i + 1;
        }
        assert(all.take(self.columns.len() as int) =~= all);
        out
    }
}

/// The schema derive's plan for a struct, or why it is refused.
pub open spec fn spec_schema_plan(input: DeriveInputModel, json_feature: bool, types: &TypeTable) -> Result<SchemaPlanV, MacroErrorV> {
    match spec_container_attrs(input.attrs@, true) {
        Err(e) => Err(e),
        Ok(_) => match spec_crudly_parsed(input, json_feature, types) {
            Err(e) => Err(e),
            Ok(p) => Ok(SchemaPlanV {
                table_name: p.table_name,
                id: p.id_info,
                columns: column_fragments(named_fields(input), p.field_attrs, p.rename_all),
            }),
        },
    }
}

/// Plans the schema derive for a struct, with the `try_from` / `try_into` types given by
/// `types`. `json_feature`: whether JSON support is enabled.
pub fn plan_schema(input: &DeriveInputModel, json_feature: bool, types: &TypeTable) -> (res: Result<SchemaPlan, MacroError>)
    ensures
        match (res, spec_schema_plan(*input, json_feature, types)) {
            (Ok(p), Ok(v)) => p@ == v,
            (Err(e), Err(e2)) => e@ == e2,
            _ => false,
        },
{
    let _container = parse_container_attrs(&input.attrs, true)?;
    let parsed = CrudlyParsed::parse(input, json_feature, types)?;
    let fields = match &input.data {
        DataModel::Struct(FieldsModel::Named(fields)) => fields,
        _ => {
            assert(false);
            return Err(MacroError::SchemaNeedsNamedFields);
        },
    };
    proof {
        lemma_fields_attrs_len(fields@, json_feature, types);
    }
    let columns = columns_for_fields(fields, &parsed.field_attrs, parsed.rename_all);
    Ok(SchemaPlan { table_name: parsed.table_name, id: parsed.id_info, columns })
}

/// Plans the schema derive for a struct: parses its `try_from` / `try_into` types, then plans
/// with them. Whatever the parses give, the plan is [`spec_schema_plan`] with a table that has
/// an entry for every such text.
pub fn expand_derive_schema(input: &DeriveInputModel, json_feature: bool) -> (res: Result<SchemaPlan, MacroError>)
    ensures
        exists|types: TypeTable| #[trigger] covers_texts(types@, input_try_texts(*input)) && match (res, spec_schema_plan(*input, json_feature, &types)) {
            (Ok(p), Ok(v)) => p@ == v,
            (Err(e), Err(e2)) => e@ == e2,
            _ => false,
        },
{
    let types = parse_try_types(input);
    let res = plan_schema(input, json_feature, &types);
    assert(covers_texts(types@, input_try_texts(*input)));
    res
}

/// The attributes read have one entry per field.
pub proof fn lemma_fields_attrs_len(fields: Seq<FieldModel>, json_feature: bool, types: &TypeTable)
    ensures
        spec_fields_attrs(fields, json_feature, types) matches Ok(fas) ==> fas.len() == fields.len(),
    decreases fields.len(),
{
    if fields.len() > 0 {
        lemma_fields_attrs_len(fields.drop_last(), json_feature, types);
    }
}

} // verus!
