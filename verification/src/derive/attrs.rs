//! Reading the field and container attributes of a struct.

use vstd::prelude::*;
use vstd::string::*;
use crate::derive::model::{Attr, AttrBody, ContainerKey, DataModel, DeriveInputModel, DerivePath, FieldKey, FieldModel, FieldsModel, JsonAttr, MacroError, MacroErrorV, MetaArg, MetaItem, SchemaKey, TypeModel, TypeView, opt_chars, opt_type};
use crate::naming::{RenameAll, rename_all_named, str_eq};

verus! {

/// Calls `syn::parse_str::<syn::Type>` and converts the type into a [`TypeModel`] (its tokens,
/// printed by `quote::ToTokens`, and the last segment of a path type), or its error into the
/// message. Nothing is claimed of the outcome: how the tokens are printed depends on whether
/// the process runs inside the compiler, so the outcome is recorded in a [`TypeTable`] that
/// the derive planners take as input.
#[verifier::external_body]
fn parse_type(text: &str) -> (res: Result<TypeModel, String>) {
    match syn::parse_str::<syn::Type>(text) {
        Ok(ty) => {
            let tokens = quote::ToTokens::to_token_stream(&ty).to_string();
            let path_last = match &ty {
                syn::Type::Path(p) => p.path.segments.last().map(|s| (s.ident.to_string(), !s.arguments.is_empty())),
                _ => None,
            };
            Ok(TypeModel { tokens, path_last })
        },
        Err(e) => Err(e.to_string()),
    }
}

/// The plain value of a parse outcome: the type, or the parser's message.
pub open spec fn outcome_view(o: Result<TypeModel, String>) -> Result<TypeView, Seq<char>> {
    match o {
        Ok(t) => Ok(t@),
        Err(m) => Err(m@),
    }
}

/// The types parsed from the `try_from` / `try_into` texts of a struct: each text with what
/// parsing it gave in this process.
pub struct TypeTable {
    pub entries: Vec<(String, Result<TypeModel, String>)>,
}

impl View for TypeTable {
    type V = Seq<(Seq<char>, Result<TypeView, Seq<char>>)>;

    open spec fn view(&self) -> Seq<(Seq<char>, Result<TypeView, Seq<char>>)> {
        self.entries@.map_values(|e: (String, Result<TypeModel, String>)| (e.0@, outcome_view(e.1)))
    }
}

/// What a table gives for a text: the outcome of its first entry for that text, if any.
pub open spec fn type_outcome(entries: Seq<(Seq<char>, Result<TypeView, Seq<char>>)>, text: Seq<char>) -> Option<Result<TypeView, Seq<char>>>
    decreases entries.len(),
{
    if entries.len() == 0 {
        None
    } else if entries[0].0 == text {
        Some(entries[0].1)
    } else {
        type_outcome(entries.drop_first(), text)
    }
}

/// Every text has an entry in the table.
pub open spec fn covers_texts(entries: Seq<(Seq<char>, Result<TypeView, Seq<char>>)>, texts: Seq<Seq<char>>) -> bool {
    forall|i: int| 0 <= i < texts.len() ==> (#[trigger] type_outcome(entries, texts[i])) is Some
}

/// A text's own entry is found.
proof fn lemma_outcome_found(entries: Seq<(Seq<char>, Result<TypeView, Seq<char>>)>, i: int)
    requires
        0 <= i < entries.len(),
    ensures
        type_outcome(entries, entries[i].0) is Some,
    decreases i,
{
    if entries[0].0 != entries[i].0 {
        assert(entries.drop_first()[i - 1] == entries[i]);
        lemma_outcome_found(entries.drop_first(), i - 1);
    }
}

fn clone_outcome(o: &Result<TypeModel, String>) -> (res: Result<TypeModel, String>)
    ensures
        outcome_view(res) == outcome_view(*o),
{
    match o {
        Ok(t) => Ok(t.clone_model()),
        Err(m) => Err(m.clone()),
    }
}

/// What the table gives for a text.
pub fn lookup_type(types: &TypeTable, text: &str) -> (res: Option<Result<TypeModel, String>>)
    ensures
        match res {
            None => type_outcome(types@, text@) is None,
            Some(o) => type_outcome(types@, text@) == Some(outcome_view(o)),
        },
{
    let mut i: usize = 0;
    assert(types@.skip(0) =~= types@);
    while i < types.entries.len()
        invariant
            i <= types.entries.len(),
            type_outcome(types@, text@) == type_outcome(types@.skip(i as int), text@),
        decreases types.entries.len() - i,
    {
        assert(types@.skip(i as int).drop_first() =~= types@.skip(i + 1));
        assert(types@.skip(i as int)[0] == types@[i as int]);
        if str_eq(types.entries[i].0.as_str(), text) {
            return Some(clone_outcome(&types.entries[i].1));
        }
        i = i + 1;
    }
    assert(types@.skip(i as int).len() == 0);
    None
}

/// The `try_from` / `try_into` texts among the items of an attribute, in order.
pub open spec fn item_try_texts(items: Seq<MetaItem>) -> Seq<Seq<char>>
    decreases items.len(),
{
    if items.len() == 0 {
        Seq::empty()
    } else {
        let it = items.last();
        item_try_texts(items.drop_last()) + if (it.key@ == "try_from"@ || it.key@ == "try_into"@) && it.arg is Str {
            seq![it.arg->Str_0@]
        } else {
            Seq::empty()
        }
    }
}

/// The `try_from` / `try_into` texts of one attribute: those of a `#[sqlx(...)]` or
/// `#[crudly(...)]` list.
pub open spec fn attr_try_texts(attr: Attr) -> Seq<Seq<char>> {
    if attr.path@ == "sqlx"@ || attr.path@ == "crudly"@ {
        match attr.body {
            AttrBody::List(items) => item_try_texts(items@),
            _ => Seq::empty(),
        }
    } else {
        Seq::empty()
    }
}

/// The `try_from` / `try_into` texts of attributes, in order.
pub open spec fn attrs_try_texts(attrs: Seq<Attr>) -> Seq<Seq<char>>
    decreases attrs.len(),
{
    if attrs.len() == 0 {
        Seq::empty()
    } else {
        attrs_try_texts(attrs.drop_last()) + attr_try_texts(attrs.last())
    }
}

/// The `try_from` / `try_into` texts of fields, in order.
pub open spec fn fields_try_texts(fields: Seq<FieldModel>) -> Seq<Seq<char>>
    decreases fields.len(),
{
    if fields.len() == 0 {
        Seq::empty()
    } else {
        fields_try_texts(fields.drop_last()) + attrs_try_texts(fields.last().attrs@)
    }
}

/// The `try_from` / `try_into` texts of a struct's named fields, in order.
pub open spec fn input_try_texts(input: DeriveInputModel) -> Seq<Seq<char>> {
    match input.data {
        DataModel::Struct(FieldsModel::Named(fields)) => fields_try_texts(fields@),
        _ => Seq::empty(),
    }
}

fn push_item_texts(out: &mut Vec<String>, items: &Vec<MetaItem>)
    ensures
        crate::text::views(final(out)@) == crate::text::views(old(out)@) + item_try_texts(items@),
{
    let ghost start = crate::text::views(out@);
    let mut i: usize = 0;
    assert(items@.take(0) =~= Seq::<MetaItem>::empty());
    assert(start + Seq::<Seq<char>>::empty() =~= start);
    while i < items.len()
        invariant
            i <= items.len(),
            crate::text::views(out@) == start + item_try_texts(items@.take(i as int)),
        decreases items.len() - i,
    {
        let ghost before = out@;
        assert(items@.take(i + 1).drop_last() =~= items@.take(i as int));
        assert(items@.take(i + 1).last() == items@[i as int]);
        let it = &items[i];
        if str_eq(it.key.as_str(), "try_from") || str_eq(it.key.as_str(), "try_into") {
            match &it.arg {
                MetaArg::Str(t) => {
                    out.push(t.clone());
                    assert(crate::text::views(out@) =~= crate::text::views(before).push(t@));
                },
                _ => {
                    assert(crate::text::views(out@) =~= crate::text::views(before));
                },
            }
        }
        assert(crate::text::views(out@) =~= start + item_try_texts(items@.take(i + 1)));
        i = i + 1;
    }
    assert(items@.take(items.len() as int) =~= items@);
}

fn push_attrs_texts(out: &mut Vec<String>, attrs: &Vec<Attr>)
    ensures
        crate::text::views(final(out)@) == crate::text::views(old(out)@) + attrs_try_texts(attrs@),
{
    let ghost start = crate::text::views(out@);
    let mut i: usize = 0;
    assert(attrs@.take(0) =~= Seq::<Attr>::empty());
    assert(start + Seq::<Seq<char>>::empty() =~= start);
    while i < attrs.len()
        invariant
            i <= attrs.len(),
            crate::text::views(out@) == start + attrs_try_texts(attrs@.take(i as int)),
        decreases attrs.len() - i,
    {
        let ghost before = crate::text::views(out@);
        assert(attrs@.take(i + 1).drop_last() =~= attrs@.take(i as int));
        assert(attrs@.take(i + 1).last() == attrs@[i as int]);
        let attr = &attrs[i];
        if is_path(attr, "sqlx") || is_path(attr, "crudly") {
            match &attr.body {
                AttrBody::List(items) => push_item_texts(out, items),
                _ => {},
            }
        }
        assert(crate::text::views(out@) =~= before + attr_try_texts(attrs@[i as int]));
        assert(crate::text::views(out@) =~= start + attrs_try_texts(attrs@.take(i + 1)));
        i = i + 1;
    }
    assert(attrs@.take(attrs.len() as int) =~= attrs@);
}

/// The `try_from` / `try_into` texts of a struct's named fields, in order.
pub fn try_texts(input: &DeriveInputModel) -> (res: Vec<String>)
    ensures
        crate::text::views(res@) == input_try_texts(*input),
{
    let mut out: Vec<String> = Vec::new();
    match &input.data {
        DataModel::Struct(FieldsModel::Named(fields)) => {
            let mut i: usize = 0;
            assert(fields@.take(0) =~= Seq::<FieldModel>::empty());
            assert(crate::text::views(out@) =~= Seq::<Seq<char>>::empty());
            while i < fields.len()
                invariant
                    i <= fields.len(),
                    crate::text::views(out@) == fields_try_texts(fields@.take(i as int)),
                decreases fields.len() - i,
            {
                assert(fields@.take(i + 1).drop_last() =~= fields@.take(i as int));
                assert(fields@.take(i + 1).last() == fields@[i as int]);
                push_attrs_texts(&mut out, &fields[i].attrs);
                i = i + 1;
            }
            assert(fields@.take(fields.len() as int) =~= fields@);
        },
        _ => {
            assert(crate::text::views(out@) =~= Seq::<Seq<char>>::empty());
        },
    }
    out
}

/// Parses every `try_from` / `try_into` text of a struct once. Whatever each parse gives, the
/// table has an entry for every text.
pub fn parse_try_types(input: &DeriveInputModel) -> (res: TypeTable)
    ensures
        covers_texts(res@, input_try_texts(*input)),
{
    let texts = try_texts(input);
    let mut entries: Vec<(String, Result<TypeModel, String>)> = Vec::new();
    let mut i: usize = 0;
    while i < texts.len()
        invariant
            i <= texts.len(),
            entries.len() == i,
            forall|k: int| 0 <= k < i ==> (#[trigger] entries@[k]).0@ == texts@[k]@,
        decreases texts.len() - i,
    {
        let outcome = parse_type(texts[i].as_str());
        entries.push((texts[i].clone(), outcome));
        i = i + 1;
    }
    let table = TypeTable { entries };
    assert forall|k: int| 0 <= k < input_try_texts(*input).len() implies
        (#[trigger] type_outcome(table@, input_try_texts(*input)[k])) is Some by {
        assert(crate::text::views(texts@)[k] == texts@[k]@);
        assert(table@[k].0 == table.entries@[k].0@);
        lemma_outcome_found(table@, k);
    }
    table
}

/// The attributes of one field, merged across `#[sqlx(...)]` and `#[crudly(...)]`.
pub struct FieldAttrs {
    pub rename: Option<String>,
    pub field_default: bool,
    pub flatten: bool,
    pub skip: bool,
    pub try_from: Option<TypeModel>,
    pub try_into: Option<TypeModel>,
    pub json: Option<JsonAttr>,
    /// `#[crudly(id)]`: the id field of the schema derive.
    pub crudly_id: bool,
    /// The keys seen so far, in order.
    pub keys: Vec<FieldKey>,
}

/// The plain value of [`FieldAttrs`].
pub struct FieldAttrsV {
    pub rename: Option<Seq<char>>,
    pub field_default: bool,
    pub flatten: bool,
    pub skip: bool,
    pub try_from: Option<TypeView>,
    pub try_into: Option<TypeView>,
    pub json: Option<JsonAttr>,
    pub crudly_id: bool,
    pub keys: Seq<FieldKey>,
}

impl View for FieldAttrs {
    type V = FieldAttrsV;

    open spec fn view(&self) -> FieldAttrsV {
        FieldAttrsV {
            rename: opt_chars(self.rename),
            field_default: self.field_default,
            flatten: self.flatten,
            skip: self.skip,
            try_from: opt_type(self.try_from),
            try_into: opt_type(self.try_into),
            json: self.json,
            crudly_id: self.crudly_id,
            keys: self.keys@,
        }
    }
}

/// No attribute given.
pub open spec fn empty_field_attrs() -> FieldAttrsV {
    FieldAttrsV {
        rename: None,
        field_default: false,
        flatten: false,
        skip: false,
        try_from: None,
        try_into: None,
        json: None,
        crudly_id: false,
        keys: Seq::empty(),
    }
}

impl FieldAttrs {
    pub fn empty() -> (res: FieldAttrs)
        ensures
            res@ == empty_field_attrs(),
    {
        FieldAttrs {
            rename: None,
            field_default: false,
            flatten: false,
            skip: false,
            try_from: None,
            try_into: None,
            json: None,
            crudly_id: false,
            keys: Vec::new(),
        }
    }
}

/// The string that a `key = "..."` item gives.
pub open spec fn str_arg(arg: MetaArg) -> Result<Seq<char>, MacroErrorV> {
    match arg {
        MetaArg::Str(s) => Ok(s@),
        MetaArg::NonStr => Err(MacroErrorV::ExpectedStrLit),
        _ => Err(MacroErrorV::ExpectedEq),
    }
}

/// A flag key must not be followed by anything.
pub open spec fn flag_arg_ok(arg: MetaArg) -> bool {
    arg is Flag
}

/// Records a field key, refusing one given before.
pub open spec fn merge_key(fa: FieldAttrsV, key: FieldKey) -> Result<FieldAttrsV, MacroErrorV> {
    if fa.keys.contains(key) {
        Err(MacroErrorV::DuplicateFieldKey(key))
    } else {
        Ok(FieldAttrsV { keys: fa.keys.push(key), ..fa })
    }
}

/// `rename = "..."`.
pub open spec fn rename_step(fa: FieldAttrsV, arg: MetaArg) -> Result<FieldAttrsV, MacroErrorV> {
    match str_arg(arg) {
        Err(e) => Err(e),
        Ok(v) => match merge_key(fa, FieldKey::Rename) {
            Err(e) => Err(e),
            Ok(f) => Ok(FieldAttrsV { rename: Some(v), ..f }),
        },
    }
}

/// `try_from = "..."` (`into` false) or `try_into = "..."` (`into` true): the type that the
/// table gives for the text; a text the table lacks is refused like one that does not parse,
/// with an empty message.
pub open spec fn try_step(fa: FieldAttrsV, arg: MetaArg, into: bool, types: &TypeTable) -> Result<FieldAttrsV, MacroErrorV> {
    match str_arg(arg) {
        Err(e) => Err(e),
        Ok(v) => match type_outcome(types@, v) {
            None => Err(MacroErrorV::InvalidType(Seq::empty())),
            Some(Err(m)) => Err(MacroErrorV::InvalidType(m)),
            Some(Ok(t)) => if into {
                match merge_key(fa, FieldKey::TryInto) {
                    Err(e) => Err(e),
                    Ok(f) => Ok(FieldAttrsV { try_into: Some(t), ..f }),
                }
            } else {
                match merge_key(fa, FieldKey::TryFrom) {
                    Err(e) => Err(e),
                    Ok(f) => Ok(FieldAttrsV { try_from: Some(t), ..f }),
                }
            },
        },
    }
}

/// A flag key: recorded and set, then refused if something follows it.
pub open spec fn flag_step(fa: FieldAttrsV, key: FieldKey, arg: MetaArg) -> Result<FieldAttrsV, MacroErrorV> {
    match merge_key(fa, key) {
        Err(e) => Err(e),
        Ok(f) => {
            let set = match key {
                FieldKey::Default => FieldAttrsV { field_default: true, ..f },
                FieldKey::Flatten => FieldAttrsV { flatten: true, ..f },
                FieldKey::Skip => FieldAttrsV { skip: true, ..f },
                _ => FieldAttrsV { crudly_id: true, ..f },
            };
            if flag_arg_ok(arg) { Ok(set) } else { Err(MacroErrorV::ExpectedComma) }
        },
    }
}

/// `json` or `json(nullable)`.
pub open spec fn json_step(fa: FieldAttrsV, arg: MetaArg) -> Result<FieldAttrsV, MacroErrorV> {
    match arg {
        MetaArg::Paren(toks) => {
            if toks@.len() == 0 || !toks@[0].1 {
                Err(MacroErrorV::ExpectedIdent)
            } else if toks@[0].0@ != "nullable"@ {
                Err(MacroErrorV::JsonArg)
            } else {
                match merge_key(fa, FieldKey::Json) {
                    Err(e) => Err(e),
                    Ok(f) => if toks@.len() > 1 {
                        Err(MacroErrorV::UnexpectedToken)
                    } else {
                        Ok(FieldAttrsV { json: Some(JsonAttr::Nullable), ..f })
                    },
                }
            }
        },
        _ => match merge_key(fa, FieldKey::Json) {
            Err(e) => Err(e),
            Ok(f) => if flag_arg_ok(arg) {
                Ok(FieldAttrsV { json: Some(JsonAttr::NonNullable), ..f })
            } else {
                Err(MacroErrorV::ExpectedComma)
            },
        },
    }
}

/// What one item of a field attribute does to the attributes read so far. `id` is a key of
/// `#[crudly(...)]` only.
pub open spec fn field_item_step(fa: FieldAttrsV, item: MetaItem, in_crudly: bool, types: &TypeTable) -> Result<FieldAttrsV, MacroErrorV> {
    let key = item.key@;
    if key == "rename"@ {
        rename_step(fa, item.arg)
    } else if key == "try_from"@ {
        try_step(fa, item.arg, false, types)
    } else if key == "try_into"@ {
        try_step(fa, item.arg, true, types)
    } else if key == "default"@ {
        flag_step(fa, FieldKey::Default, item.arg)
    } else if key == "flatten"@ {
        flag_step(fa, FieldKey::Flatten, item.arg)
    } else if key == "skip"@ {
        flag_step(fa, FieldKey::Skip, item.arg)
    } else if key == "json"@ {
        json_step(fa, item.arg)
    } else if in_crudly && key == "id"@ {
        flag_step(fa, FieldKey::Id, item.arg)
    } else {
        Err(MacroErrorV::UnknownFieldAttr)
    }
}

fn merge_field_key(attrs: &mut FieldAttrs, key: FieldKey) -> (res: Result<(), MacroError>)
    ensures
        match (res, merge_key(old(attrs)@, key)) {
            (Ok(()), Ok(f)) => final(attrs)@ == f,
            (Err(e), Err(e2)) => e@ == e2,
            _ => false,
        },
        res is Err ==> *final(attrs) == *old(attrs),
{
    let mut i: usize = 0;
    while i < attrs.keys.len()
        invariant
            i <= attrs.keys.len(),
            forall|j: int| 0 <= j < i ==> attrs.keys@[j] != key,
        decreases attrs.keys.len() - i,
    {
        if attrs.keys[i] == key {
            return Err(MacroError::DuplicateFieldKey(key));
        }
        i = i + 1;
    }
    attrs.keys.push(key);
    Ok(())
}

fn str_value(arg: &MetaArg) -> (res: Result<String, MacroError>)
    ensures
        match (res, str_arg(*arg)) {
            (Ok(s), Ok(v)) => s@ == v,
            (Err(e), Err(e2)) => e@ == e2,
            _ => false,
        },
{
    match arg {
        MetaArg::Str(s) => Ok(s.clone()),
        MetaArg::NonStr => Err(MacroError::ExpectedStrLit),
        _ => Err(MacroError::ExpectedEq),
    }
}

fn is_flag(arg: &MetaArg) -> (res: bool)
    ensures
        res == flag_arg_ok(*arg),
{
    match arg {
        MetaArg::Flag => true,
        _ => false,
    }
}

fn try_key(attrs: &mut FieldAttrs, arg: &MetaArg, into: bool, types: &TypeTable) -> (res: Result<(), MacroError>)
    ensures
        match (res, try_step(old(attrs)@, *arg, into, types)) {
            (Ok(()), Ok(f)) => final(attrs)@ == f,
            (Err(e), Err(e2)) => e@ == e2,
            _ => false,
        },
{
    let v = str_value(arg)?;
    let ty = match lookup_type(types, v.as_str()) {
        None => return Err(MacroError::InvalidType(String::new())),
        Some(Err(m)) => return Err(MacroError::InvalidType(m)),
        Some(Ok(t)) => t,
    };
    if into {
        merge_field_key(attrs, FieldKey::TryInto)?;
        attrs.try_into = Some(ty);
    } else {
        merge_field_key(attrs, FieldKey::TryFrom)?;
        attrs.try_from = Some(ty);
    }
    Ok(())
}

fn flag_key(attrs: &mut FieldAttrs, key: FieldKey, arg: &MetaArg) -> (res: Result<(), MacroError>)
    requires
        key == FieldKey::Default || key == FieldKey::Flatten || key == FieldKey::Skip || key == FieldKey::Id,
    ensures
        match (res, flag_step(old(attrs)@, key, *arg)) {
            (Ok(()), Ok(f)) => final(attrs)@ == f,
            (Err(e), Err(e2)) => e@ == e2,
            _ => false,
        },
{
    merge_field_key(attrs, key)?;
    match key {
        FieldKey::Default => attrs.field_default = true,
        FieldKey::Flatten => attrs.flatten = true,
        FieldKey::Skip => attrs.skip = true,
        _ => attrs.crudly_id = true,
    }
    if is_flag(arg) { Ok(()) } else { Err(MacroError::ExpectedComma) }
}

fn json_key(attrs: &mut FieldAttrs, arg: &MetaArg) -> (res: Result<(), MacroError>)
    ensures
        match (res, json_step(old(attrs)@, *arg)) {
            (Ok(()), Ok(f)) => final(attrs)@ == f,
            (Err(e), Err(e2)) => e@ == e2,
            _ => false,
        },
{
    match arg {
        MetaArg::Paren(toks) => {
            if toks.len() == 0 || !toks[0].1 {
                return Err(MacroError::ExpectedIdent);
            }
            if !str_eq(toks[0].0.as_str(), "nullable") {
                return Err(MacroError::JsonArg);
            }
            merge_field_key(attrs, FieldKey::Json)?;
            if toks.len() > 1 {
                return Err(MacroError::UnexpectedToken);
            }
            attrs.json = Some(JsonAttr::Nullable);
            Ok(())
        },
        _ => {
            merge_field_key(attrs, FieldKey::Json)?;
            attrs.json = Some(JsonAttr::NonNullable);
            if is_flag(arg) { Ok(()) } else { Err(MacroError::ExpectedComma) }
        },
    }
}

/// Applies one item of a `#[sqlx(...)]` (`in_crudly` false) or `#[crudly(...)]` (`in_crudly`
/// true) field attribute.
pub fn parse_field_nested(attrs: &mut FieldAttrs, item: &MetaItem, in_crudly: bool, types: &TypeTable) -> (res: Result<(), MacroError>)
    ensures
        match (res, field_item_step(old(attrs)@, *item, in_crudly, types)) {
            (Ok(()), Ok(f)) => final(attrs)@ == f,
            (Err(e), Err(e2)) => e@ == e2,
            _ => false,
        },
{
    let key = item.key.as_str();
    if str_eq(key, "rename") {
        let v = str_value(&item.arg)?;
        merge_field_key(attrs, FieldKey::Rename)?;
        attrs.rename = Some(v);
        Ok(())
    } else if str_eq(key, "try_from") {
        try_key(attrs, &item.arg, false, types)
    } else if str_eq(key, "try_into") {
        try_key(attrs, &item.arg, true, types)
    } else if str_eq(key, "default") {
        flag_key(attrs, FieldKey::Default, &item.arg)
    } else if str_eq(key, "flatten") {
        flag_key(attrs, FieldKey::Flatten, &item.arg)
    } else if str_eq(key, "skip") {
        flag_key(attrs, FieldKey::Skip, &item.arg)
    } else if str_eq(key, "json") {
        json_key(attrs, &item.arg)
    } else if in_crudly && str_eq(key, "id") {
        flag_key(attrs, FieldKey::Id, &item.arg)
    } else {
        Err(MacroError::UnknownFieldAttr)
    }
}

/// The items of one attribute applied in order; the first refusal stops the reading.
pub open spec fn fold_field_items(acc: Result<FieldAttrsV, MacroErrorV>, items: Seq<MetaItem>, in_crudly: bool, types: &TypeTable) -> Result<FieldAttrsV, MacroErrorV>
    decreases items.len(),
{
    match acc {
        Err(e) => Err(e),
        Ok(f) => if items.len() == 0 {
            Ok(f)
        } else {
            fold_field_items(field_item_step(f, items[0], in_crudly, types), items.drop_first(), in_crudly, types)
        },
    }
}

/// What one attribute of a field does: `#[sqlx(...)]` and `#[crudly(...)]` are read, any other
/// attribute is ignored.
pub open spec fn field_attr_step(f: FieldAttrsV, attr: Attr, types: &TypeTable) -> Result<FieldAttrsV, MacroErrorV> {
    if attr.path@ == "sqlx"@ || attr.path@ == "crudly"@ {
        match attr.body {
            AttrBody::List(items) => fold_field_items(Ok(f), items@, attr.path@ != "sqlx"@, types),
            _ => Err(MacroErrorV::ExpectedList),
        }
    } else {
        Ok(f)
    }
}

/// The attributes of a field applied in order.
pub open spec fn fold_field_attrs(acc: Result<FieldAttrsV, MacroErrorV>, attrs: Seq<Attr>, types: &TypeTable) -> Result<FieldAttrsV, MacroErrorV>
    decreases attrs.len(),
{
    match acc {
        Err(e) => Err(e),
        Ok(f) => if attrs.len() == 0 {
            Ok(f)
        } else {
            fold_field_attrs(field_attr_step(f, attrs[0], types), attrs.drop_first(), types)
        },
    }
}

/// The combinations a field may not have. Types are compared by their printed tokens.
pub open spec fn field_checks(f: FieldAttrsV, json_feature: bool) -> Result<FieldAttrsV, MacroErrorV> {
    if f.flatten && f.json is Some {
        Err(MacroErrorV::JsonAndFlatten)
    } else if f.flatten && (f.try_from is Some || f.try_into is Some) {
        Err(MacroErrorV::FlattenAndTry)
    } else if f.try_from is Some && f.try_into is Some && f.try_from->0.tokens != f.try_into->0.tokens {
        Err(MacroErrorV::TryMismatch)
    } else if f.json is Some && (f.try_from is Some || f.try_into is Some) {
        Err(MacroErrorV::JsonAndTry)
    } else if f.json is Some && !json_feature {
        Err(MacroErrorV::JsonFeature)
    } else {
        Ok(f)
    }
}

/// The attributes of a field, or why they are refused. `json_feature`: whether JSON support is
/// enabled.
pub open spec fn spec_field_attrs(field: FieldModel, json_feature: bool, types: &TypeTable) -> Result<FieldAttrsV, MacroErrorV> {
    match fold_field_attrs(Ok(empty_field_attrs()), field.attrs@, types) {
        Err(e) => Err(e),
        Ok(f) => field_checks(f, json_feature),
    }
}

fn parse_field_items(attrs: &mut FieldAttrs, items: &Vec<MetaItem>, in_crudly: bool, types: &TypeTable) -> (res: Result<(), MacroError>)
    ensures
        match (res, fold_field_items(Ok(old(attrs)@), items@, in_crudly, types)) {
            (Ok(()), Ok(f)) => final(attrs)@ == f,
            (Err(e), Err(e2)) => e@ == e2,
            _ => false,
        },
{
    let ghost target = fold_field_items(Ok(attrs@), items@, in_crudly, types);
    assert(items@.skip(0) =~= items@);
    let mut i: usize = 0;
    while i < items.len()
        invariant
            i <= items.len(),
            fold_field_items(Ok(attrs@), items@.skip(i as int), in_crudly, types) == target,
            target == fold_field_items(Ok(old(attrs)@), items@, in_crudly, types),
        decreases items.len() - i,
    {
        assert(items@.skip(i as int).drop_first() =~= items@.skip(i + 1));
        let ghost step = field_item_step(attrs@, items@[i as int], in_crudly, types);
        assert(fold_field_items(Ok(attrs@), items@.skip(i as int), in_crudly, types)
            == fold_field_items(step, items@.skip(i + 1), in_crudly, types));
        parse_field_nested(attrs, &items[i], in_crudly, types)?;
        i = i + 1;
    }
    assert(items@.skip(items.len() as int) =~= Seq::<MetaItem>::empty());
    Ok(())
}

fn is_path(attr: &Attr, name: &str) -> (res: bool)
    ensures
        res == (attr.path@ == name@),
{
    str_eq(attr.path.as_str(), name)
}

fn parse_field_attr_list(attrs: &mut FieldAttrs, field_attrs: &Vec<Attr>, types: &TypeTable) -> (res: Result<(), MacroError>)
    ensures
        match (res, fold_field_attrs(Ok(old(attrs)@), field_attrs@, types)) {
            (Ok(()), Ok(f)) => final(attrs)@ == f,
            (Err(e), Err(e2)) => e@ == e2,
            _ => false,
        },
{
    let ghost target = fold_field_attrs(Ok(attrs@), field_attrs@, types);
    assert(field_attrs@.skip(0) =~= field_attrs@);
    let mut i: usize = 0;
    while i < field_attrs.len()
        invariant
            i <= field_attrs.len(),
            fold_field_attrs(Ok(attrs@), field_attrs@.skip(i as int), types) == target,
            target == fold_field_attrs(Ok(old(attrs)@), field_attrs@, types),
        decreases field_attrs.len() - i,
    {
        assert(field_attrs@.skip(i as int).drop_first() =~= field_attrs@.skip(i + 1));
        let ghost step = field_attr_step(attrs@, field_attrs@[i as int], types);
        assert(fold_field_attrs(Ok(attrs@), field_attrs@.skip(i as int), types)
            == fold_field_attrs(step, field_attrs@.skip(i + 1), types));
        let attr = &field_attrs[i];
        if is_path(attr, "sqlx") || is_path(attr, "crudly") {
            match &attr.body {
                AttrBody::List(items) => {
                    parse_field_items(attrs, items, !is_path(attr, "sqlx"), types)?;
                },
                _ => {
                    return Err(MacroError::ExpectedList);
                },
            }
        }
        i = i + 1;
    }
    assert(field_attrs@.skip(field_attrs.len() as int) =~= Seq::<Attr>::empty());
    Ok(())
}

fn same_type(a: &TypeModel, b: &TypeModel) -> (res: bool)
    ensures
        res == (a@.tokens == b@.tokens),
{
    a.tokens == b.tokens
}

/// Reads the `#[sqlx(...)]` and `#[crudly(...)]` attributes of a field and refuses the
/// combinations that cannot be bound. `json_feature`: whether JSON support is enabled.
pub fn parse_field_attrs(field: &FieldModel, json_feature: bool, types: &TypeTable) -> (res: Result<FieldAttrs, MacroError>)
    ensures
        match (res, spec_field_attrs(*field, json_feature, types)) {
            (Ok(f), Ok(v)) => f@ == v,
            (Err(e), Err(e2)) => e@ == e2,
            _ => false,
        },
{
    let mut merged = FieldAttrs::empty();
    parse_field_attr_list(&mut merged, &field.attrs, types)?;
    let has_try = merged.try_from.is_some() || merged.try_into.is_some();
    if merged.flatten && merged.json.is_some() {
        return Err(MacroError::JsonAndFlatten);
    }
    if merged.flatten && has_try {
        return Err(MacroError::FlattenAndTry);
    }
    if let (Some(a), Some(b)) = (&merged.try_from, &merged.try_into) {
        if !same_type(a, b) {
            return Err(MacroError::TryMismatch);
        }
    }
    if merged.json.is_some() && has_try {
        return Err(MacroError::JsonAndTry);
    }
    if merged.json.is_some() && !json_feature {
        return Err(MacroError::JsonFeature);
    }
    Ok(merged)
}

/// `try_into = "String"` / `try_from = "String"`: the value is bound as its `to_string()`
/// instead of through `TryInto`. Holds of a path type whose last segment is `String` without
/// generic arguments.
pub open spec fn is_string_target(ty: TypeView) -> bool {
    match ty.path_last {
        Some(last) => last.0 == "String"@ && !last.1,
        None => false,
    }
}

/// Whether a `try_from` / `try_into` target is `String`.
pub fn try_target_is_string(ty: &TypeModel) -> (res: bool)
    ensures
        res == is_string_target(ty@),
{
    match &ty.path_last {
        Some(last) => str_eq(last.0.as_str(), "String") && !last.1,
        None => false,
    }
}

/// The column of a field: its `rename`, else its name under the container's `rename_all`, else
/// its name.
pub open spec fn spec_column_name(field: FieldModel, fa: FieldAttrsV, rename_all: Option<RenameAll>) -> Seq<char> {
    match fa.rename {
        Some(r) => r,
        None => match rename_all {
            Some(ra) => ra.spec_apply(field.ident@),
            None => field.ident@,
        },
    }
}

/// The column name of a field.
pub fn column_name_for_field(field: &FieldModel, attrs: &FieldAttrs, rename_all: Option<RenameAll>) -> (res: String)
    ensures
        res@ == spec_column_name(*field, attrs@, rename_all),
{
    match &attrs.rename {
        Some(r) => r.clone(),
        None => match rename_all {
            Some(ra) => ra.apply(field.ident.as_str()),
            None => field.ident.clone(),
        },
    }
}

/// The container attributes the row derive reads.
pub struct ContainerAttrs {
    pub rename_all: Option<RenameAll>,
    pub container_default: bool,
    /// The keys seen so far, in order.
    pub keys: Vec<ContainerKey>,
}

/// The plain value of [`ContainerAttrs`].
pub struct ContainerAttrsV {
    pub rename_all: Option<RenameAll>,
    pub container_default: bool,
    pub keys: Seq<ContainerKey>,
}

impl View for ContainerAttrs {
    type V = ContainerAttrsV;

    open spec fn view(&self) -> ContainerAttrsV {
        ContainerAttrsV { rename_all: self.rename_all, container_default: self.container_default, keys: self.keys@ }
    }
}

/// No container attribute given.
pub open spec fn empty_container_attrs() -> ContainerAttrsV {
    ContainerAttrsV { rename_all: None, container_default: false, keys: Seq::empty() }
}

/// Records a container key, refusing one given before (in either attribute).
pub open spec fn merge_container(c: ContainerAttrsV, key: ContainerKey) -> Result<ContainerAttrsV, MacroErrorV> {
    if c.keys.contains(key) {
        Err(MacroErrorV::DuplicateContainerKey(key))
    } else {
        Ok(ContainerAttrsV { keys: c.keys.push(key), ..c })
    }
}

/// `rename_all = "..."`.
pub open spec fn rename_all_step(c: ContainerAttrsV, arg: MetaArg) -> Result<ContainerAttrsV, MacroErrorV> {
    match merge_container(c, ContainerKey::RenameAll) {
        Err(e) => Err(e),
        Ok(c2) => match str_arg(arg) {
            Err(e) => Err(e),
            Ok(v) => match rename_all_named(v) {
                None => Err(MacroErrorV::RenameAllValue),
                Some(r) => Ok(ContainerAttrsV { rename_all: Some(r), ..c2 }),
            },
        },
    }
}

/// `default` on the container: accepted; it does not change how rows are bound.
pub open spec fn container_default_step(c: ContainerAttrsV, arg: MetaArg) -> Result<ContainerAttrsV, MacroErrorV> {
    match merge_container(c, ContainerKey::Default) {
        Err(e) => Err(e),
        Ok(c2) => if flag_arg_ok(arg) {
            Ok(ContainerAttrsV { container_default: true, ..c2 })
        } else {
            Err(MacroErrorV::ExpectedComma)
        },
    }
}

/// One item of a `#[sqlx(...)]` container attribute.
pub open spec fn sqlx_container_step(c: ContainerAttrsV, item: MetaItem) -> Result<ContainerAttrsV, MacroErrorV> {
    let key = item.key@;
    if key == "rename_all"@ {
        rename_all_step(c, item.arg)
    } else if key == "default"@ {
        container_default_step(c, item.arg)
    } else if key == "transparent"@ || key == "type_name"@ || key == "repr"@ || key == "no_pg_array"@ {
        Err(MacroErrorV::UnsupportedSqlxContainer)
    } else {
        Err(MacroErrorV::UnknownSqlxContainer(key))
    }
}

/// One item of a `#[crudly(...)]` container attribute. Besides `rename_all` and `default`, every
/// key is left to the schema derive when the struct derives `Schema` (`schema_derived`), which
/// reads and checks them; else `table`, `external_ids`, `id` and `executor` are refused as keys
/// of the schema derive, and any other key as unknown.
pub open spec fn crudly_container_step(c: ContainerAttrsV, item: MetaItem, schema_derived: bool) -> Result<ContainerAttrsV, MacroErrorV> {
    let key = item.key@;
    if key == "rename_all"@ {
        rename_all_step(c, item.arg)
    } else if key == "default"@ {
        container_default_step(c, item.arg)
    } else if schema_derived {
        Ok(c)
    } else if key == "table"@ || key == "id"@ || key == "external_ids"@ || key == "executor"@ {
        Err(MacroErrorV::SchemaOnlyKey)
    } else {
        Err(MacroErrorV::UnknownCrudlyContainer(key))
    }
}

/// The items of one container attribute applied in order (`crudly` false: `#[sqlx(...)]`).
pub open spec fn fold_container_items(acc: Result<ContainerAttrsV, MacroErrorV>, items: Seq<MetaItem>, crudly: bool, schema_derived: bool) -> Result<ContainerAttrsV, MacroErrorV>
    decreases items.len(),
{
    match acc {
        Err(e) => Err(e),
        Ok(c) => if items.len() == 0 {
            Ok(c)
        } else {
            let next = if crudly {
                crudly_container_step(c, items[0], schema_derived)
            } else {
                sqlx_container_step(c, items[0])
            };
            fold_container_items(next, items.drop_first(), crudly, schema_derived)
        },
    }
}

/// What one attribute of the container does to the row derive's container attributes.
pub open spec fn container_attr_step(c: ContainerAttrsV, attr: Attr, schema_derived: bool) -> Result<ContainerAttrsV, MacroErrorV> {
    if attr.path@ == "sqlx"@ || attr.path@ == "crudly"@ {
        match attr.body {
            AttrBody::List(items) => fold_container_items(Ok(c), items@, attr.path@ != "sqlx"@, schema_derived),
            _ => Err(MacroErrorV::ExpectedList),
        }
    } else {
        Ok(c)
    }
}

/// The container attributes applied in order.
pub open spec fn fold_container_attrs(acc: Result<ContainerAttrsV, MacroErrorV>, attrs: Seq<Attr>, schema_derived: bool) -> Result<ContainerAttrsV, MacroErrorV>
    decreases attrs.len(),
{
    match acc {
        Err(e) => Err(e),
        Ok(c) => if attrs.len() == 0 {
            Ok(c)
        } else {
            fold_container_attrs(container_attr_step(c, attrs[0], schema_derived), attrs.drop_first(), schema_derived)
        },
    }
}

/// The row derive's container attributes of a struct, or why they are refused.
pub open spec fn spec_container_attrs(attrs: Seq<Attr>, schema_derived: bool) -> Result<ContainerAttrsV, MacroErrorV> {
    fold_container_attrs(Ok(empty_container_attrs()), attrs, schema_derived)
}

fn merge_container_key(c: &mut ContainerAttrs, key: ContainerKey) -> (res: Result<(), MacroError>)
    ensures
        match (res, merge_container(old(c)@, key)) {
            (Ok(()), Ok(v)) => final(c)@ == v,
            (Err(e), Err(e2)) => e@ == e2,
            _ => false,
        },
        res is Err ==> *final(c) == *old(c),
{
    let mut i: usize = 0;
    while i < c.keys.len()
        invariant
            i <= c.keys.len(),
            forall|j: int| 0 <= j < i ==> c.keys@[j] != key,
        decreases c.keys.len() - i,
    {
        if c.keys[i] == key {
            return Err(MacroError::DuplicateContainerKey(key));
        }
        i = i + 1;
    }
    c.keys.push(key);
    Ok(())
}

fn rename_all_key(c: &mut ContainerAttrs, arg: &MetaArg) -> (res: Result<(), MacroError>)
    ensures
        match (res, rename_all_step(old(c)@, *arg)) {
            (Ok(()), Ok(v)) => final(c)@ == v,
            (Err(e), Err(e2)) => e@ == e2,
            _ => false,
        },
{
    merge_container_key(c, ContainerKey::RenameAll)?;
    let v = str_value(arg)?;
    match RenameAll::parse(v.as_str()) {
        None => Err(MacroError::RenameAllValue),
        Some(r) => {
            c.rename_all = Some(r);
            Ok(())
        },
    }
}

fn container_default_key(c: &mut ContainerAttrs, arg: &MetaArg) -> (res: Result<(), MacroError>)
    ensures
        match (res, container_default_step(old(c)@, *arg)) {
            (Ok(()), Ok(v)) => final(c)@ == v,
            (Err(e), Err(e2)) => e@ == e2,
            _ => false,
        },
{
    merge_container_key(c, ContainerKey::Default)?;
    c.container_default = true;
    if is_flag(arg) { Ok(()) } else { Err(MacroError::ExpectedComma) }
}

fn container_item(c: &mut ContainerAttrs, item: &MetaItem, crudly: bool, schema_derived: bool) -> (res: Result<(), MacroError>)
    ensures
        match (res, if crudly { crudly_container_step(old(c)@, *item, schema_derived) } else { sqlx_container_step(old(c)@, *item) }) {
            (Ok(()), Ok(v)) => final(c)@ == v,
            (Err(e), Err(e2)) => e@ == e2,
            _ => false,
        },
{
    let key = item.key.as_str();
    if str_eq(key, "rename_all") {
        rename_all_key(c, &item.arg)
    } else if str_eq(key, "default") {
        container_default_key(c, &item.arg)
    } else if crudly {
        if schema_derived {
            Ok(())
        } else if str_eq(key, "table") || str_eq(key, "id") || str_eq(key, "external_ids") || str_eq(key, "executor") {
            Err(MacroError::SchemaOnlyKey)
        } else {
            Err(MacroError::UnknownCrudlyContainer(item.key.clone()))
        }
    } else if str_eq(key, "transparent") || str_eq(key, "type_name") || str_eq(key, "repr") || str_eq(key, "no_pg_array") {
        Err(MacroError::UnsupportedSqlxContainer)
    } else {
        Err(MacroError::UnknownSqlxContainer(item.key.clone()))
    }
}

fn container_items(c: &mut ContainerAttrs, items: &Vec<MetaItem>, crudly: bool, schema_derived: bool) -> (res: Result<(), MacroError>)
    ensures
        match (res, fold_container_items(Ok(old(c)@), items@, crudly, schema_derived)) {
            (Ok(()), Ok(v)) => final(c)@ == v,
            (Err(e), Err(e2)) => e@ == e2,
            _ => false,
        },
{
    let ghost target = fold_container_items(Ok(c@), items@, crudly, schema_derived);
    assert(items@.skip(0) =~= items@);
    let mut i: usize = 0;
    while i < items.len()
        invariant
            i <= items.len(),
            fold_container_items(Ok(c@), items@.skip(i as int), crudly, schema_derived) == target,
            target == fold_container_items(Ok(old(c)@), items@, crudly, schema_derived),
        decreases items.len() - i,
    {
        assert(items@.skip(i as int).drop_first() =~= items@.skip(i + 1));
        let ghost step = if crudly {
            crudly_container_step(c@, items@[i as int], schema_derived)
        } else {
            sqlx_container_step(c@, items@[i as int])
        };
        assert(fold_container_items(Ok(c@), items@.skip(i as int), crudly, schema_derived)
            == fold_container_items(step, items@.skip(i + 1), crudly, schema_derived));
        container_item(c, &items[i], crudly, schema_derived)?;
        i = i + 1;
    }
    assert(items@.skip(items.len() as int) =~= Seq::<MetaItem>::empty());
    Ok(())
}

/// Reads the row derive's container attributes from `#[sqlx(...)]` and `#[crudly(...)]`:
/// `rename_all` and `default`, each at most once across both. `schema_derived`: whether the
/// struct also derives `Schema`, whose keys are then left to it.
pub fn parse_container_attrs(attrs: &Vec<Attr>, schema_derived: bool) -> (res: Result<ContainerAttrs, MacroError>)
    ensures
        match (res, spec_container_attrs(attrs@, schema_derived)) {
            (Ok(c), Ok(v)) => c@ == v,
            (Err(e), Err(e2)) => e@ == e2,
            _ => false,
        },
{
    let mut c = ContainerAttrs { rename_all: None, container_default: false, keys: Vec::new() };
    let ghost target = spec_container_attrs(attrs@, schema_derived);
    assert(attrs@.skip(0) =~= attrs@);
    let mut i: usize = 0;
    while i < attrs.len()
        invariant
            i <= attrs.len(),
            fold_container_attrs(Ok(c@), attrs@.skip(i as int), schema_derived) == target,
            target == spec_container_attrs(attrs@, schema_derived),
        decreases attrs.len() - i,
    {
        assert(attrs@.skip(i as int).drop_first() =~= attrs@.skip(i + 1));
        let attr = &attrs[i];
        let ghost step = container_attr_step(c@, attrs@[i as int], schema_derived);
        assert(fold_container_attrs(Ok(c@), attrs@.skip(i as int), schema_derived)
            == fold_container_attrs(step, attrs@.skip(i + 1), schema_derived));
        if is_path(attr, "sqlx") || is_path(attr, "crudly") {
            match &attr.body {
                AttrBody::List(items) => {
                    container_items(&mut c, items, !is_path(attr, "sqlx"), schema_derived)?;
                },
                _ => {
                    return Err(MacroError::ExpectedList);
                },
            }
        }
        i = i + 1;
    }
    assert(attrs@.skip(attrs.len() as int) =~= Seq::<Attr>::empty());
    Ok(c)
}

} // verus!
