//! The row derive: the column list, how each field is bound, and the bounds the impl needs.

use vstd::prelude::*;
use crate::derive::attrs::{TypeTable, covers_texts, input_try_texts, parse_try_types};
use vstd::string::*;
use crate::derive::attrs::{FieldAttrs, FieldAttrsV, is_string_target, parse_container_attrs, spec_container_attrs, try_target_is_string};
use crate::derive::derive_attr::{attr_derives, input_derives};
use crate::derive::fields::{attrs_views, collect_field_attrs, column_fragments, columns_for_fields, fragment_views, spec_fields_attrs};
use crate::derive::model::{ColumnFragment, ColumnFragmentV, DataModel, DeriveInputModel, FieldModel, FieldsModel, JsonAttr, MacroError, MacroErrorV, TypeModel, TypeView};
use crate::derive::schema::lemma_fields_attrs_len;
use crate::naming::str_eq;

verus! {

/// How the row impl binds one field (by index).
pub enum BindStep {
    /// The value itself.
    Plain(usize),
    /// The value wrapped for JSON encoding.
    Json(usize),
    /// An optional value (`json(nullable)`): its content wrapped for JSON encoding, or SQL
    /// `NULL` when absent.
    JsonNullable(usize),
    /// `to_string()` of the value (`try_from` / `try_into` to `String`).
    ToStringBind(usize),
    /// The value converted with `TryInto` to the type with the given tokens; a failed conversion
    /// is an encoding error.
    TryInto(usize, String),
    /// The field's own row binding, in place.
    Flatten(usize),
}

/// The plain value of a [`BindStep`].
pub enum BindStepV {
    Plain(nat),
    Json(nat),
    JsonNullable(nat),
    ToStringBind(nat),
    TryInto(nat, Seq<char>),
    Flatten(nat),
}

impl View for BindStep {
    type V = BindStepV;

    open spec fn view(&self) -> BindStepV {
        match self {
            BindStep::Plain(i) => BindStepV::Plain(*i as nat),
            BindStep::Json(i) => BindStepV::Json(*i as nat),
            BindStep::JsonNullable(i) => BindStepV::JsonNullable(*i as nat),
            BindStep::ToStringBind(i) => BindStepV::ToStringBind(*i as nat),
            BindStep::TryInto(i, t) => BindStepV::TryInto(*i as nat, t@),
            BindStep::Flatten(i) => BindStepV::Flatten(*i as nat),
        }
    }
}

/// A bound of the row impl; types are given by their tokens, and the database parameter is the
/// impl's own.
pub enum Bound {
    /// `T: ToString`.
    ToStringFor(String),
    /// `String: Encode + Type` for the database.
    StringEncodes,
    /// `T: Encode + Type` for the database.
    Encodes(String),
    /// `Json<T>: Encode + Type` for the database.
    JsonEncodes(String),
    /// `T` is an `Option` whose content can be bound as JSON, absent as `NULL`.
    NullableJsonFor(String),
    /// `T: IntoRow` for the database.
    IntoRowFor(String),
    /// `T: TryInto<U>`.
    TryIntoFor(String, String),
}

/// The plain value of a [`Bound`].
pub enum BoundV {
    ToStringFor(Seq<char>),
    StringEncodes,
    Encodes(Seq<char>),
    JsonEncodes(Seq<char>),
    NullableJsonFor(Seq<char>),
    IntoRowFor(Seq<char>),
    TryIntoFor(Seq<char>, Seq<char>),
}

impl View for Bound {
    type V = BoundV;

    open spec fn view(&self) -> BoundV {
        match self {
            Bound::ToStringFor(t) => BoundV::ToStringFor(t@),
            Bound::StringEncodes => BoundV::StringEncodes,
            Bound::Encodes(t) => BoundV::Encodes(t@),
            Bound::JsonEncodes(t) => BoundV::JsonEncodes(t@),
            Bound::NullableJsonFor(t) => BoundV::NullableJsonFor(t@),
            Bound::IntoRowFor(t) => BoundV::IntoRowFor(t@),
            Bound::TryIntoFor(t, u) => BoundV::TryIntoFor(t@, u@),
        }
    }
}

/// The conversion target of a field: `try_from`, else `try_into`.
pub open spec fn try_target(fa: FieldAttrsV) -> Option<TypeView> {
    if fa.try_from is Some { fa.try_from } else { fa.try_into }
}

/// How a field is bound: not at all when skipped or the id field; its own binding when
/// flattened; through its conversion target; as JSON (an absent `json(nullable)` value as SQL
/// `NULL`); else as itself.
pub open spec fn bind_of(fa: FieldAttrsV, idx: nat) -> Seq<BindStepV> {
    if fa.skip || fa.crudly_id {
        Seq::empty()
    } else if fa.flatten {
        seq![BindStepV::Flatten(idx)]
    } else {
        match try_target(fa) {
            Some(u) => if is_string_target(u) {
                seq![BindStepV::ToStringBind(idx)]
            } else {
                seq![BindStepV::TryInto(idx, u.tokens)]
            },
            None => match fa.json {
                Some(JsonAttr::Nullable) => seq![BindStepV::JsonNullable(idx)],
                Some(JsonAttr::NonNullable) => seq![BindStepV::Json(idx)],
                None => seq![BindStepV::Plain(idx)],
            },
        }
    }
}

/// The binding steps of the fields, in field order.
pub open spec fn all_binds(fas: Seq<FieldAttrsV>) -> Seq<BindStepV>
    decreases fas.len(),
{
    if fas.len() == 0 {
        Seq::empty()
    } else {
        let n = (fas.len() - 1) as nat;
        all_binds(fas.drop_last()) + bind_of(fas.last(), n)
    }
}

/// The encoding bounds one field needs: none when it is skipped, the id field or flattened;
/// for a conversion to `String`, `ToString` on the field's type and the encoding of `String`;
/// for a conversion to another type, that type's encoding; the JSON encoding for a `json`
/// field; else the encoding of the field's type.
pub open spec fn encode_bounds(ty: TypeView, fa: FieldAttrsV) -> Seq<BoundV> {
    if fa.skip || fa.crudly_id || fa.flatten {
        Seq::empty()
    } else {
        match try_target(fa) {
            Some(u) => if is_string_target(u) {
                seq![BoundV::ToStringFor(ty.tokens), BoundV::StringEncodes]
            } else {
                seq![BoundV::Encodes(u.tokens)]
            },
            None => match fa.json {
                Some(JsonAttr::Nullable) => seq![BoundV::NullableJsonFor(ty.tokens)],
                Some(JsonAttr::NonNullable) => seq![BoundV::JsonEncodes(ty.tokens)],
                None => seq![BoundV::Encodes(ty.tokens)],
            },
        }
    }
}

/// The trait bounds one field needs besides its encoding: `IntoRow` for a flattened type,
/// `TryInto` for a conversion to a type other than `String`.
pub open spec fn trait_bounds(ty: TypeView, fa: FieldAttrsV) -> Seq<BoundV> {
    if fa.skip || fa.crudly_id {
        Seq::empty()
    } else if fa.flatten {
        seq![BoundV::IntoRowFor(ty.tokens)]
    } else {
        match try_target(fa) {
            Some(u) => if is_string_target(u) {
                Seq::empty()
            } else {
                seq![BoundV::TryIntoFor(ty.tokens, u.tokens)]
            },
            None => Seq::empty(),
        }
    }
}

/// The bounds one field needs, in order: its encoding bounds, then its trait bounds.
pub open spec fn field_bounds(ty: TypeView, fa: FieldAttrsV) -> Seq<BoundV> {
    encode_bounds(ty, fa) + trait_bounds(ty, fa)
}

/// Adds a bound unless it is there already.
pub open spec fn push_unique(acc: Seq<BoundV>, b: BoundV) -> Seq<BoundV> {
    if acc.contains(b) { acc } else { acc.push(b) }
}

/// Adds bounds in order, each unless it is there already.
pub open spec fn push_all_unique(acc: Seq<BoundV>, bs: Seq<BoundV>) -> Seq<BoundV>
    decreases bs.len(),
{
    if bs.len() == 0 {
        acc
    } else {
        push_all_unique(push_unique(acc, bs[0]), bs.drop_first())
    }
}

/// The bounds of all fields, in field order, each once.
pub open spec fn all_bounds(fields: Seq<FieldModel>, fas: Seq<FieldAttrsV>) -> Seq<BoundV>
    decreases fields.len(),
{
    if fields.len() == 0 {
        Seq::empty()
    } else {
        let n = fields.len() - 1;
        push_all_unique(all_bounds(fields.drop_last(), fas), field_bounds(fields.last().ty@, fas[n]))
    }
}

/// What the row derive emits, as plain values: the columns of `HasColumns::columns`, the
/// binding steps of `bind_arguments`, and the bounds of the impl.
pub struct IntoRowPlan {
    pub columns: Vec<ColumnFragment>,
    pub binds: Vec<BindStep>,
    pub bounds: Vec<Bound>,
}

/// The plain value of an [`IntoRowPlan`].
pub struct IntoRowPlanV {
    pub columns: Seq<ColumnFragmentV>,
    pub binds: Seq<BindStepV>,
    pub bounds: Seq<BoundV>,
}

/// The plain values of binding steps.
pub open spec fn bind_views(bs: Seq<BindStep>) -> Seq<BindStepV> {
    bs.map_values(|b: BindStep| b@)
}

/// The plain values of bounds.
pub open spec fn bound_views(bs: Seq<Bound>) -> Seq<BoundV> {
    bs.map_values(|b: Bound| b@)
}

impl View for IntoRowPlan {
    type V = IntoRowPlanV;

    open spec fn view(&self) -> IntoRowPlanV {
        IntoRowPlanV { columns: fragment_views(self.columns@), binds: bind_views(self.binds@), bounds: bound_views(self.bounds@) }
    }
}

/// Whether some field gives a column of its own: one neither skipped nor the id field.
pub open spec fn has_column_field(fas: Seq<FieldAttrsV>) -> bool {
    exists|i: int| 0 <= i < fas.len() && !(#[trigger] fas[i]).skip && !fas[i].crudly_id
}

/// Whether some field is marked `#[crudly(id)]`.
pub open spec fn has_id_field(fas: Seq<FieldAttrsV>) -> bool {
    exists|i: int| 0 <= i < fas.len() && (#[trigger] fas[i]).crudly_id
}

/// The row derive's plan for a struct, or why it is refused. `#[crudly(id)]` belongs to the
/// schema derive: on a struct that does not derive `Schema` it is an unknown field attribute.
pub open spec fn spec_into_row_plan(input: DeriveInputModel, json_feature: bool, types: &TypeTable) -> Result<IntoRowPlanV, MacroErrorV> {
    let schema_derived = exists|i: int| 0 <= i < input.attrs@.len() && attr_derives(#[trigger] input.attrs@[i], "Schema"@);
    match spec_container_attrs(input.attrs@, schema_derived) {
        Err(e) => Err(e),
        Ok(c) => match input.data {
            DataModel::Struct(FieldsModel::Named(fields)) => match spec_fields_attrs(fields@, json_feature, types) {
                Err(e) => Err(e),
                Ok(fas) => if !schema_derived && has_id_field(fas) {
                    Err(MacroErrorV::UnknownFieldAttr)
                } else if !has_column_field(fas) {
                    Err(MacroErrorV::NoColumns)
                } else {
                    Ok(IntoRowPlanV {
                        columns: column_fragments(fields@, fas, c.rename_all),
                        binds: all_binds(fas),
                        bounds: all_bounds(fields@, fas),
                    })
                },
            },
            DataModel::Struct(_) => Err(MacroErrorV::IntoRowNotNamed),
            _ => Err(MacroErrorV::IntoRowNotStruct),
        },
    }
}

fn target_of(fa: &FieldAttrs) -> (res: Option<&TypeModel>)
    ensures
        opt_type_ref(res) == try_target(fa@),
{
    match &fa.try_from {
        Some(t) => Some(t),
        None => match &fa.try_into {
            Some(t) => Some(t),
            None => None,
        },
    }
}

/// The plain value of an optional type reference.
pub open spec fn opt_type_ref(o: Option<&TypeModel>) -> Option<TypeView> {
    match o {
        Some(t) => Some(t@),
        None => None,
    }
}

/// How the field with index `idx` is bound; `None` when it is not.
pub fn field_binding_expr(fa: &FieldAttrs, idx: usize) -> (res: Option<BindStep>)
    ensures
        match res {
            Some(b) => bind_of(fa@, idx as nat) == seq![b@],
            None => bind_of(fa@, idx as nat) == Seq::<BindStepV>::empty(),
        },
{
    if fa.skip || fa.crudly_id {
        return None;
    }
    if fa.flatten {
        return Some(BindStep::Flatten(idx));
    }
    match target_of(fa) {
        Some(u) => if try_target_is_string(u) {
            Some(BindStep::ToStringBind(idx))
        } else {
            Some(BindStep::TryInto(idx, u.tokens.clone()))
        },
        None => match fa.json {
            Some(JsonAttr::Nullable) => Some(BindStep::JsonNullable(idx)),
            Some(JsonAttr::NonNullable) => Some(BindStep::Json(idx)),
            None => Some(BindStep::Plain(idx)),
        },
    }
}

fn same_bound(a: &Bound, b: &Bound) -> (res: bool)
    ensures
        res == (a@ == b@),
{
    match (a, b) {
        (Bound::ToStringFor(x), Bound::ToStringFor(y)) => str_eq(x.as_str(), y.as_str()),
        (Bound::StringEncodes, Bound::StringEncodes) => true,
        (Bound::Encodes(x), Bound::Encodes(y)) => str_eq(x.as_str(), y.as_str()),
        (Bound::JsonEncodes(x), Bound::JsonEncodes(y)) => str_eq(x.as_str(), y.as_str()),
        (Bound::NullableJsonFor(x), Bound::NullableJsonFor(y)) => str_eq(x.as_str(), y.as_str()),
        (Bound::IntoRowFor(x), Bound::IntoRowFor(y)) => str_eq(x.as_str(), y.as_str()),
        (Bound::TryIntoFor(x1, x2), Bound::TryIntoFor(y1, y2)) => str_eq(x1.as_str(), y1.as_str()) && str_eq(x2.as_str(), y2.as_str()),
        _ => false,
    }
}

/// Adds a bound unless an equal one is there already.
pub fn push_pred_unique(preds: &mut Vec<Bound>, p: Bound)
    ensures
        bound_views(final(preds)@) == push_unique(bound_views(old(preds)@), p@),
{
    let ghost pv = p@;
    let mut i: usize = 0;
    while i < preds.len()
        invariant
            i <= preds.len(),
            pv == p@,
            forall|k: int| 0 <= k < i ==> preds@[k]@ != pv,
        decreases preds.len() - i,
    {
        if same_bound(&preds[i], &p) {
            assert(bound_views(preds@)[i as int] == pv);
            return;
        }
        i = i + 1;
    }
    let ghost before = preds@;
    assert(!bound_views(before).contains(pv)) by {
        if bound_views(before).contains(pv) {
            let k = choose|k: int| 0 <= k < bound_views(before).len() && bound_views(before)[k] == pv;
            assert(before[k]@ == pv);
        }
    }
    preds.push(p);
    assert(bound_views(preds@) =~= bound_views(before).push(pv));
}

/// The encoding bounds one field needs, as [`encode_bounds`] lists them; nothing for a
/// skipped, id or flattened field.
pub fn add_field_encode_bounds(field: &FieldModel, fa: &FieldAttrs) -> (res: Vec<Bound>)
    ensures
        bound_views(res@) == encode_bounds(field.ty@, fa@),
{
    let mut out: Vec<Bound> = Vec::new();
    if fa.skip || fa.crudly_id || fa.flatten {
        assert(bound_views(out@) =~= Seq::<BoundV>::empty());
        return out;
    }
    let fty = field.ty.tokens.clone();
    match target_of(fa) {
        Some(u) => if try_target_is_string(u) {
            out.push(Bound::ToStringFor(fty));
            out.push(Bound::StringEncodes);
        } else {
            out.push(Bound::Encodes(u.tokens.clone()));
        },
        None => match fa.json {
            Some(JsonAttr::Nullable) => out.push(Bound::NullableJsonFor(fty)),
            Some(JsonAttr::NonNullable) => out.push(Bound::JsonEncodes(fty)),
            None => out.push(Bound::Encodes(fty)),
        },
    }
    assert(bound_views(out@) =~= encode_bounds(field.ty@, fa@));
    out
}

/// The trait bounds one field needs besides its encoding, as [`trait_bounds`] lists them:
/// `IntoRow` for a flattened type, `TryInto` for a conversion to a type other than `String`.
pub fn add_field_trait_bounds(field: &FieldModel, fa: &FieldAttrs) -> (res: Vec<Bound>)
    ensures
        bound_views(res@) == trait_bounds(field.ty@, fa@),
{
    let mut out: Vec<Bound> = Vec::new();
    if fa.skip || fa.crudly_id {
        assert(bound_views(out@) =~= Seq::<BoundV>::empty());
        return out;
    }
    let fty = field.ty.tokens.clone();
    if fa.flatten {
        out.push(Bound::IntoRowFor(fty));
    } else {
        match target_of(fa) {
            Some(u) => if !try_target_is_string(u) {
                out.push(Bound::TryIntoFor(fty, u.tokens.clone()));
            },
            None => {},
        }
    }
    assert(bound_views(out@) =~= trait_bounds(field.ty@, fa@));
    out
}

/// Adding two lists of bounds one after the other adds their concatenation.
proof fn lemma_push_all_unique_concat(acc: Seq<BoundV>, a: Seq<BoundV>, b: Seq<BoundV>)
    ensures
        push_all_unique(acc, a + b) == push_all_unique(push_all_unique(acc, a), b),
    decreases a.len(),
{
    if a.len() == 0 {
        assert(a + b =~= b);
    } else {
        assert((a + b)[0] == a[0]);
        assert((a + b).drop_first() =~= a.drop_first() + b);
        lemma_push_all_unique_concat(push_unique(acc, a[0]), a.drop_first(), b);
    }
}

fn clone_bound(b: &Bound) -> (res: Bound)
    ensures
        res@ == b@,
{
    match b {
        Bound::ToStringFor(t) => Bound::ToStringFor(t.clone()),
        Bound::StringEncodes => Bound::StringEncodes,
        Bound::Encodes(t) => Bound::Encodes(t.clone()),
        Bound::JsonEncodes(t) => Bound::JsonEncodes(t.clone()),
        Bound::NullableJsonFor(t) => Bound::NullableJsonFor(t.clone()),
        Bound::IntoRowFor(t) => Bound::IntoRowFor(t.clone()),
        Bound::TryIntoFor(t, u) => Bound::TryIntoFor(t.clone(), u.clone()),
    }
}

fn push_all_preds(preds: &mut Vec<Bound>, more: &Vec<Bound>)
    ensures
        bound_views(final(preds)@) == push_all_unique(bound_views(old(preds)@), bound_views(more@)),
{
    let ghost all = bound_views(more@);
    let ghost target = push_all_unique(bound_views(preds@), all);
    assert(all.skip(0) =~= all);
    let mut i: usize = 0;
    while i < more.len()
        invariant
            i <= more.len(),
            all == bound_views(more@),
            push_all_unique(bound_views(preds@), all.skip(i as int)) == target,
            target == push_all_unique(bound_views(old(preds)@), all),
        decreases more.len() - i,
    {
        let b = clone_bound(&more[i]);
        assert(all.skip(i as int).drop_first() =~= all.skip(i + 1));
        push_pred_unique(preds, b);
        i = i + 1;
    }
    assert(all.skip(more.len() as int) =~= Seq::<BoundV>::empty());
}

/// Plans the row derive for a struct: parses its `try_from` / `try_into` types, then plans
/// with them. Whatever the parses give, the plan is [`spec_into_row_plan`] with a table that
/// has an entry for every such text.
pub fn expand_derive_into_row(input: &DeriveInputModel, json_feature: bool) -> (res: Result<IntoRowPlan, MacroError>)
    ensures
        exists|types: TypeTable| #[trigger] covers_texts(types@, input_try_texts(*input)) && match (res, spec_into_row_plan(*input, json_feature, &types)) {
            (Ok(p), Ok(v)) => p@ == v,
            (Err(e), Err(e2)) => e@ == e2,
            _ => false,
        },
{
    let types = parse_try_types(input);
    let res = plan_into_row(input, json_feature, &types);
    assert(covers_texts(types@, input_try_texts(*input)));
    res
}

/// Plans the row derive for a struct: refuses what cannot be bound, lists the columns (the id
/// field and skipped fields excluded), the binding of every field in order, and the bounds the
/// impl needs, each once. The `try_from` / `try_into` types are those that `types` gives for
/// their texts. `json_feature`: whether JSON support is enabled.
pub fn plan_into_row(input: &DeriveInputModel, json_feature: bool, types: &TypeTable) -> (res: Result<IntoRowPlan, MacroError>)
    ensures
        match (res, spec_into_row_plan(*input, json_feature, types)) {
            (Ok(p), Ok(v)) => p@ == v,
            (Err(e), Err(e2)) => e@ == e2,
            _ => false,
        },
{
    let schema_derived = input_derives(&input.attrs, "Schema");
    proof { reveal_strlit("Schema"); }
    let container = parse_container_attrs(&input.attrs, schema_derived)?;
    let fields = match &input.data {
        DataModel::Struct(FieldsModel::Named(fields)) => fields,
        DataModel::Struct(_) => return Err(MacroError::IntoRowNotNamed),
        _ => return Err(MacroError::IntoRowNotStruct),
    };
    let fas = collect_field_attrs(fields, json_feature, types)?;
    proof {
        lemma_fields_attrs_len(fields@, json_feature, types);
    }
    let ghost fav = attrs_views(fas@);
    let mut saw_non_skip = false;
    let mut saw_id = false;
    let mut binds: Vec<BindStep> = Vec::new();
    let mut bounds: Vec<Bound> = Vec::new();
    let mut i: usize = 0;
    assert(fields@.take(0).len() == 0);
    assert(fav.take(0).len() == 0);
    assert(bind_views(binds@) =~= Seq::<BindStepV>::empty());
    assert(bound_views(bounds@) =~= Seq::<BoundV>::empty());
    while i < fields.len()
        invariant
            i <= fields.len(),
            fas.len() == fields.len(),
            fav == attrs_views(fas@),
            saw_non_skip == exists|k: int| 0 <= k < i && !(#[trigger] fav[k]).skip && !fav[k].crudly_id,
            saw_id == exists|k: int| 0 <= k < i && (#[trigger] fav[k]).crudly_id,
            bind_views(binds@) == all_binds(fav.take(i as int)),
            bound_views(bounds@) == all_bounds(fields@.take(i as int), fav),
        decreases fields.len() - i,
    {
        let fa = &fas[i];
        assert(fav[i as int] == fa@);
        assert(fields@.take(i as int + 1).drop_last() =~= fields@.take(i as int));
        assert(fav.take(i as int + 1).drop_last() =~= fav.take(i as int));
        if !fa.skip && !fa.crudly_id {
            saw_non_skip = true;
        }
        if fa.crudly_id {
            saw_id = true;
        }
        let ghost before = binds@;
        match field_binding_expr(fa, i) {
            Some(b) => {
                binds.push(b);
                assert(bind_views(binds@) =~= bind_views(before) + bind_of(fa@, i as nat));
            },
            None => {
                assert(bind_views(binds@) =~= bind_views(before) + bind_of(fa@, i as nat));
            },
        }
        let ghost before_bounds = bound_views(bounds@);
        let encode = add_field_encode_bounds(&fields[i], fa);
        push_all_preds(&mut bounds, &encode);
        let traits = add_field_trait_bounds(&fields[i], fa);
        push_all_preds(&mut bounds, &traits);
        proof {
            lemma_push_all_unique_concat(before_bounds, bound_views(encode@), bound_views(traits@));
        }
        i = i + 1;
    }
    assert(fields@.take(fields.len() as int) =~= fields@);
    assert(fav.take(fields.len() as int) =~= fav);
    if saw_id && !schema_derived {
        return Err(MacroError::UnknownFieldAttr);
    }
    if !saw_non_skip {
        return Err(MacroError::NoColumns);
    }
    let columns = columns_for_fields(fields, &fas, container.rename_all);
    Ok(IntoRowPlan { columns, binds, bounds })
}

} // verus!
