//! Reading the attributes of every field, and the column list they give.

use vstd::prelude::*;
use crate::derive::attrs::TypeTable;
use crate::derive::attrs::{FieldAttrs, FieldAttrsV, column_name_for_field, parse_field_attrs, spec_column_name, spec_field_attrs};
use crate::derive::model::{ColumnFragment, ColumnFragmentV, FieldModel, MacroError, MacroErrorV};
use crate::naming::RenameAll;

verus! {

/// The attributes of every field, in order, or the refusal of the first field refused.
pub open spec fn spec_fields_attrs(fields: Seq<FieldModel>, json_feature: bool, types: &TypeTable) -> Result<Seq<FieldAttrsV>, MacroErrorV>
    decreases fields.len(),
{
    if fields.len() == 0 {
        Ok(Seq::empty())
    } else {
        match spec_fields_attrs(fields.drop_last(), json_feature, types) {
            Err(e) => Err(e),
            Ok(prev) => match spec_field_attrs(fields.last(), json_feature, types) {
                Err(e) => Err(e),
                Ok(fa) => Ok(prev.push(fa)),
            },
        }
    }
}

/// The plain values of field attributes.
pub open spec fn attrs_views(fas: Seq<FieldAttrs>) -> Seq<FieldAttrsV> {
    fas.map_values(|f: FieldAttrs| f@)
}

/// Reads the attributes of every field.
pub fn collect_field_attrs(fields: &Vec<FieldModel>, json_feature: bool, types: &TypeTable) -> (res: Result<Vec<FieldAttrs>, MacroError>)
    ensures
        match (res, spec_fields_attrs(fields@, json_feature, types)) {
            (Ok(fas), Ok(v)) => attrs_views(fas@) == v,
            (Err(e), Err(e2)) => e@ == e2,
            _ => false,
        },
{
    let mut out: Vec<FieldAttrs> = Vec::new();
    assert(attrs_views(out@) =~= Seq::<FieldAttrsV>::empty());
    assert(fields@.take(0).len() == 0);
    let mut i: usize = 0;
    while i < fields.len()
        invariant
            i <= fields.len(),
            spec_fields_attrs(fields@.take(i as int), json_feature, types) == Ok::<Seq<FieldAttrsV>, MacroErrorV>(attrs_views(out@)),
        decreases fields.len() - i,
    {
        let fa = parse_field_attrs(&fields[i], json_feature, types);
        assert(fields@.take(i + 1).drop_last() =~= fields@.take(i as int));
        assert(fields@.take(i + 1).last() == fields@[i as int]);
        match fa {
            Err(e) => {
                proof { lemma_fields_attrs_err(fields@, i as nat, json_feature, types); }
                return Err(e);
            },
            Ok(fa) => {
                let ghost before = out@;
                out.push(fa);
                assert(attrs_views(out@) =~= attrs_views(before).push(fa@));
            },
        }
        i = i + 1;
    }
    assert(fields@.take(fields.len() as int) =~= fields@);
    Ok(out)
}

/// Once a field is refused, the reading of all fields is refused the same way.
proof fn lemma_fields_attrs_err(fields: Seq<FieldModel>, i: nat, json_feature: bool, types: &TypeTable)
    requires
        i < fields.len(),
        spec_fields_attrs(fields.take(i as int), json_feature, types) is Ok,
        spec_field_attrs(fields[i as int], json_feature, types) is Err,
    ensures
        spec_fields_attrs(fields, json_feature, types) == Err::<Seq<FieldAttrsV>, MacroErrorV>(spec_field_attrs(fields[i as int], json_feature, types)->Err_0),
    decreases fields.len() - i,
{
    let e = spec_field_attrs(fields[i as int], json_feature, types)->Err_0;
    assert(fields.take(i as int + 1).drop_last() =~= fields.take(i as int));
    assert(fields.take(i as int + 1).last() == fields[i as int]);
    lemma_err_extends(fields, (i + 1) as nat, e, json_feature, types);
}

/// A refusal of a prefix stays the refusal of every longer prefix.
proof fn lemma_err_extends(fields: Seq<FieldModel>, n: nat, e: MacroErrorV, json_feature: bool, types: &TypeTable)
    requires
        n <= fields.len(),
        spec_fields_attrs(fields.take(n as int), json_feature, types) == Err::<Seq<FieldAttrsV>, MacroErrorV>(e),
    ensures
        spec_fields_attrs(fields, json_feature, types) == Err::<Seq<FieldAttrsV>, MacroErrorV>(e),
    decreases fields.len() - n,
{
    if n == fields.len() {
        assert(fields.take(n as int) =~= fields);
    } else {
        assert(fields.take(n as int + 1).drop_last() =~= fields.take(n as int));
        lemma_err_extends(fields, n + 1, e, json_feature, types);
    }
}

/// The column piece a field gives: none for a skipped field or the id field, all the columns of
/// its type for a flattened field, else its column.
pub open spec fn fragment_of(field: FieldModel, fa: FieldAttrsV, idx: nat, rename_all: Option<RenameAll>) -> Seq<ColumnFragmentV> {
    if fa.skip || fa.crudly_id {
        Seq::empty()
    } else if fa.flatten {
        seq![ColumnFragmentV::Extend(idx)]
    } else {
        seq![ColumnFragmentV::Push(spec_column_name(field, fa, rename_all))]
    }
}

/// The column pieces of the fields, in field order.
pub open spec fn column_fragments(fields: Seq<FieldModel>, fas: Seq<FieldAttrsV>, rename_all: Option<RenameAll>) -> Seq<ColumnFragmentV>
    decreases fields.len(),
{
    if fields.len() == 0 {
        Seq::empty()
    } else {
        let n = (fields.len() - 1) as nat;
        column_fragments(fields.drop_last(), fas, rename_all) + fragment_of(fields.last(), fas[n as int], n, rename_all)
    }
}

/// The plain values of column pieces.
pub open spec fn fragment_views(fs: Seq<ColumnFragment>) -> Seq<ColumnFragmentV> {
    fs.map_values(|f: ColumnFragment| f@)
}

/// The column list of the fields (without the id field): one column per plain field, the
/// columns of the type of a flattened field in its place, none for a skipped field.
pub fn columns_for_fields(fields: &Vec<FieldModel>, fas: &Vec<FieldAttrs>, rename_all: Option<RenameAll>) -> (res: Vec<ColumnFragment>)
    requires
        fas.len() == fields.len(),
    ensures
        fragment_views(res@) == column_fragments(fields@, attrs_views(fas@), rename_all),
{
    let ghost fav = attrs_views(fas@);
    let mut out: Vec<ColumnFragment> = Vec::new();
    assert(fragment_views(out@) =~= Seq::<ColumnFragmentV>::empty());
    assert(fields@.take(0).len() == 0);
    let mut i: usize = 0;
    while i < fields.len()
        invariant
            i <= fields.len(),
            fas.len() == fields.len(),
            fav == attrs_views(fas@),
            fragment_views(out@) == column_fragments(fields@.take(i as int), fav, rename_all),
        decreases fields.len() - i,
    {
        let fa = &fas[i];
        let ghost before = out@;
        assert(fields@.take(i + 1).drop_last() =~= fields@.take(i as int));
        assert(fav[i as int] == fa@);
        if fa.skip || fa.crudly_id {
            assert(fragment_views(out@) =~= fragment_views(before) + Seq::<ColumnFragmentV>::empty());
        } else if fa.flatten {
            out.push(ColumnFragment::Extend(i));
            assert(fragment_views(out@) =~= fragment_views(before) + seq![ColumnFragmentV::Extend(i as nat)]);
        } else {
            let name = column_name_for_field(&fields[i], fa, rename_all);
            let ghost nv = name@;
            out.push(ColumnFragment::Push(name));
            assert(fragment_views(out@) =~= fragment_views(before) + seq![ColumnFragmentV::Push(nv)]);
        }
        i = i + 1;
    }
    assert(fields@.take(fields.len() as int) =~= fields@);
    out
}

} // verus!
