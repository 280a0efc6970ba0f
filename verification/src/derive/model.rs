//! The struct a derive reads, as plain values, and the errors a derive reports.

use vstd::prelude::*;
use vstd::string::*;

verus! {

/// What follows a key inside `#[sqlx(...)]` or `#[crudly(...)]`.
pub enum MetaArg {
    /// Nothing: `skip`.
    Flag,
    /// `= "text"`.
    Str(String),
    /// `= <something other than a string literal>`.
    NonStr,
    /// `(...)`: the tokens between the parentheses, each with whether it is an identifier.
    Paren(Vec<(String, bool)>),
}

/// One comma-separated item of an attribute: its key (the path, as written) and what follows.
pub struct MetaItem {
    pub key: String,
    pub arg: MetaArg,
}

/// A path named in `#[derive(...)]`: its segments, and whether the last one has generic
/// arguments.
pub struct DerivePath {
    pub segments: Vec<String>,
    pub last_has_args: bool,
}

/// The contents of an attribute.
pub enum AttrBody {
    /// `#[path(item, item, ...)]` where the items parse as nested meta items.
    List(Vec<MetaItem>),
    /// `#[derive(...)]` whose contents parse as a list of paths.
    Paths(Vec<DerivePath>),
    /// Anything else: `#[path]`, `#[path = ...]`, or contents that do not parse as the above.
    Other,
}

/// An attribute: its path (as written) and its contents.
pub struct Attr {
    pub path: String,
    pub body: AttrBody,
}

/// A type as written: its tokens (printed), and for a path type its last segment and whether
/// that segment has generic arguments.
pub struct TypeModel {
    pub tokens: String,
    pub path_last: Option<(String, bool)>,
}

/// The plain value of a [`TypeModel`].
pub struct TypeView {
    pub tokens: Seq<char>,
    pub path_last: Option<(Seq<char>, bool)>,
}

impl View for TypeModel {
    type V = TypeView;

    open spec fn view(&self) -> TypeView {
        TypeView {
            tokens: self.tokens@,
            path_last: match self.path_last {
                Some(p) => Some((p.0@, p.1)),
                None => None,
            },
        }
    }
}

impl TypeModel {
    /// A copy of the type.
    pub fn clone_model(&self) -> (res: TypeModel)
        ensures
            res@ == self@,
    {
        TypeModel {
            tokens: self.tokens.clone(),
            path_last: match &self.path_last {
                Some(p) => Some((p.0.clone(), p.1)),
                None => None,
            },
        }
    }
}

/// A named field of the struct: its name, type and attributes.
pub struct FieldModel {
    pub ident: String,
    pub ty: TypeModel,
    pub attrs: Vec<Attr>,
}

/// The fields of a struct: named ones, or the other kinds (which the derives refuse).
pub enum FieldsModel {
    Named(Vec<FieldModel>),
    Unnamed,
    Unit,
}

/// What a derive is applied to.
pub enum DataModel {
    Struct(FieldsModel),
    Enum,
    Union,
}

/// The item a derive is applied to: its name, attributes and data.
pub struct DeriveInputModel {
    pub ident: String,
    pub attrs: Vec<Attr>,
    pub data: DataModel,
}

/// A key of the field attributes; each may be given once per field across `#[sqlx(...)]` and
/// `#[crudly(...)]`.
#[derive(Copy, Clone, Debug, PartialEq, Eq, Structural)]
pub enum FieldKey {
    Rename,
    TryFrom,
    TryInto,
    Default,
    Flatten,
    Skip,
    Json,
    Id,
}

/// A key of the container attributes read by the row derive.
#[derive(Copy, Clone, Debug, PartialEq, Eq, Structural)]
pub enum ContainerKey {
    RenameAll,
    Default,
}

/// A key of the container attributes read by the schema derive.
#[derive(Copy, Clone, Debug, PartialEq, Eq, Structural)]
pub enum SchemaKey {
    Table,
    DbIds,
    ExternalIds,
}

/// Why a derive refuses its input.
pub enum MacroError {
    /// A sqlx/crudly attribute that is not a parenthesized list.
    ExpectedList,
    /// A key that needs `= "..."` is not followed by `=`.
    ExpectedEq,
    /// A key that needs `= "..."` is followed by something other than a string literal.
    ExpectedStrLit,
    /// A flag key is followed by something.
    ExpectedComma,
    /// `json(...)` does not hold an identifier.
    ExpectedIdent,
    /// `json(...)` holds more than one token.
    UnexpectedToken,
    /// The text of `try_from` / `try_into` is not a type; the message of the type parser.
    InvalidType(String),
    DuplicateFieldKey(FieldKey),
    UnknownFieldAttr,
    JsonArg,
    JsonAndFlatten,
    FlattenAndTry,
    TryMismatch,
    JsonAndTry,
    JsonFeature,
    DuplicateContainerKey(ContainerKey),
    RenameAllValue,
    SchemaOnlyKey,
    UnknownCrudlyContainer(String),
    UnsupportedSqlxContainer,
    UnknownSqlxContainer(String),
    DuplicateSchemaKey(SchemaKey),
    UnknownSchemaKey,
    ExclusiveIdStrategies,
    SchemaOnEnum,
    SchemaOnUnion,
    SchemaNeedsNamedFields,
    StrategyWithoutId,
    MultipleIds,
    IntoRowNotStruct,
    IntoRowNotNamed,
    NoColumns,
}

/// The plain value of a [`MacroError`].
pub enum MacroErrorV {
    ExpectedList,
    ExpectedEq,
    ExpectedStrLit,
    ExpectedComma,
    ExpectedIdent,
    UnexpectedToken,
    InvalidType(Seq<char>),
    DuplicateFieldKey(FieldKey),
    UnknownFieldAttr,
    JsonArg,
    JsonAndFlatten,
    FlattenAndTry,
    TryMismatch,
    JsonAndTry,
    JsonFeature,
    DuplicateContainerKey(ContainerKey),
    RenameAllValue,
    SchemaOnlyKey,
    UnknownCrudlyContainer(Seq<char>),
    UnsupportedSqlxContainer,
    UnknownSqlxContainer(Seq<char>),
    DuplicateSchemaKey(SchemaKey),
    UnknownSchemaKey,
    ExclusiveIdStrategies,
    SchemaOnEnum,
    SchemaOnUnion,
    SchemaNeedsNamedFields,
    StrategyWithoutId,
    MultipleIds,
    IntoRowNotStruct,
    IntoRowNotNamed,
    NoColumns,
}

impl View for MacroError {
    type V = MacroErrorV;

    open spec fn view(&self) -> MacroErrorV {
        match self {
            MacroError::ExpectedList => MacroErrorV::ExpectedList,
            MacroError::ExpectedEq => MacroErrorV::ExpectedEq,
            MacroError::ExpectedStrLit => MacroErrorV::ExpectedStrLit,
            MacroError::ExpectedComma => MacroErrorV::ExpectedComma,
            MacroError::ExpectedIdent => MacroErrorV::ExpectedIdent,
            MacroError::UnexpectedToken => MacroErrorV::UnexpectedToken,
            MacroError::InvalidType(m) => MacroErrorV::InvalidType(m@),
            MacroError::DuplicateFieldKey(k) => MacroErrorV::DuplicateFieldKey(*k),
            MacroError::UnknownFieldAttr => MacroErrorV::UnknownFieldAttr,
            MacroError::JsonArg => MacroErrorV::JsonArg,
            MacroError::JsonAndFlatten => MacroErrorV::JsonAndFlatten,
            MacroError::FlattenAndTry => MacroErrorV::FlattenAndTry,
            MacroError::TryMismatch => MacroErrorV::TryMismatch,
            MacroError::JsonAndTry => MacroErrorV::JsonAndTry,
            MacroError::JsonFeature => MacroErrorV::JsonFeature,
            MacroError::DuplicateContainerKey(k) => MacroErrorV::DuplicateContainerKey(*k),
            MacroError::RenameAllValue => MacroErrorV::RenameAllValue,
            MacroError::SchemaOnlyKey => MacroErrorV::SchemaOnlyKey,
            MacroError::UnknownCrudlyContainer(p) => MacroErrorV::UnknownCrudlyContainer(p@),
            MacroError::UnsupportedSqlxContainer => MacroErrorV::UnsupportedSqlxContainer,
            MacroError::UnknownSqlxContainer(p) => MacroErrorV::UnknownSqlxContainer(p@),
            MacroError::DuplicateSchemaKey(k) => MacroErrorV::DuplicateSchemaKey(*k),
            MacroError::UnknownSchemaKey => MacroErrorV::UnknownSchemaKey,
            MacroError::ExclusiveIdStrategies => MacroErrorV::ExclusiveIdStrategies,
            MacroError::SchemaOnEnum => MacroErrorV::SchemaOnEnum,
            MacroError::SchemaOnUnion => MacroErrorV::SchemaOnUnion,
            MacroError::SchemaNeedsNamedFields => MacroErrorV::SchemaNeedsNamedFields,
            MacroError::StrategyWithoutId => MacroErrorV::StrategyWithoutId,
            MacroError::MultipleIds => MacroErrorV::MultipleIds,
            MacroError::IntoRowNotStruct => MacroErrorV::IntoRowNotStruct,
            MacroError::IntoRowNotNamed => MacroErrorV::IntoRowNotNamed,
            MacroError::NoColumns => MacroErrorV::NoColumns,
        }
    }
}

/// The `json` field attribute: `json`, or `json(nullable)`.
#[derive(Copy, Clone, Debug, PartialEq, Eq, Structural)]
pub enum JsonAttr {
    NonNullable,
    Nullable,
}

/// The `Option<String>` of a name, as characters.
pub open spec fn opt_chars(o: Option<String>) -> Option<Seq<char>> {
    match o {
        Some(s) => Some(s@),
        None => None,
    }
}

/// A piece of a derived column list: one column, or all the columns of a flattened field's
/// type (by the field's index).
pub enum ColumnFragment {
    Push(String),
    Extend(usize),
}

/// The plain value of a [`ColumnFragment`].
pub enum ColumnFragmentV {
    Push(Seq<char>),
    Extend(nat),
}

impl View for ColumnFragment {
    type V = ColumnFragmentV;

    open spec fn view(&self) -> ColumnFragmentV {
        match self {
            ColumnFragment::Push(c) => ColumnFragmentV::Push(c@),
            ColumnFragment::Extend(i) => ColumnFragmentV::Extend(*i as nat),
        }
    }
}

/// The `Option<TypeModel>` of a type, as a plain value.
pub open spec fn opt_type(o: Option<TypeModel>) -> Option<TypeView> {
    match o {
        Some(t) => Some(t@),
        None => None,
    }
}

/// The written name of a key.
pub open spec fn spec_field_key_name(k: FieldKey) -> Seq<char> {
    match k {
        FieldKey::Rename => "rename"@,
        FieldKey::TryFrom => "try_from"@,
        FieldKey::TryInto => "try_into"@,
        FieldKey::Default => "default"@,
        FieldKey::Flatten => "flatten"@,
        FieldKey::Skip => "skip"@,
        FieldKey::Json => "json"@,
        FieldKey::Id => "id"@,
    }
}

/// The written name of a key.
pub fn field_key_name(k: FieldKey) -> (res: &'static str)
    ensures
        res@ == spec_field_key_name(k),
{
    match k {
            FieldKey::Rename => "rename",
            FieldKey::TryFrom => "try_from",
            FieldKey::TryInto => "try_into",
            FieldKey::Default => "default",
            FieldKey::Flatten => "flatten",
            FieldKey::Skip => "skip",
            FieldKey::Json => "json",
            FieldKey::Id => "id",
    }
}

/// The written name of a key.
pub open spec fn spec_container_key_name(k: ContainerKey) -> Seq<char> {
    match k {
        ContainerKey::RenameAll => "rename_all"@,
        ContainerKey::Default => "default"@,
    }
}

/// The written name of a key.
pub fn container_key_name(k: ContainerKey) -> (res: &'static str)
    ensures
        res@ == spec_container_key_name(k),
{
    match k {
            ContainerKey::RenameAll => "rename_all",
            ContainerKey::Default => "default",
    }
}

/// The written name of a key.
pub open spec fn spec_schema_key_name(k: SchemaKey) -> Seq<char> {
    match k {
        SchemaKey::Table => "table"@,
        SchemaKey::DbIds => "db_ids"@,
        SchemaKey::ExternalIds => "external_ids"@,
    }
}

/// The written name of a key.
pub fn schema_key_name(k: SchemaKey) -> (res: &'static str)
    ensures
        res@ == spec_schema_key_name(k),
{
    match k {
            SchemaKey::Table => "table",
            SchemaKey::DbIds => "db_ids",
            SchemaKey::ExternalIds => "external_ids",
    }
}

/// The message a derive reports for an error.
pub open spec fn error_message(e: MacroErrorV) -> Seq<char> {
    match e {
        MacroErrorV::ExpectedList => "expected attribute arguments in parentheses"@,
        MacroErrorV::ExpectedEq => "expected `=`"@,
        MacroErrorV::ExpectedStrLit => "expected string literal"@,
        MacroErrorV::ExpectedComma => "expected `,`"@,
        MacroErrorV::ExpectedIdent => "expected identifier"@,
        MacroErrorV::UnexpectedToken => "unexpected token"@,
        MacroErrorV::UnknownFieldAttr => "unknown field attribute for `#[derive(IntoRow)]` (expected rename, default, flatten, skip, try_from, try_into, json)"@,
        MacroErrorV::JsonArg => "expected `json` or `json(nullable)`"@,
        MacroErrorV::JsonAndFlatten => "cannot use `json` and `flatten` together on the same field"@,
        MacroErrorV::FlattenAndTry => "cannot use `flatten` with `try_from` / `try_into`"@,
        MacroErrorV::TryMismatch => "`try_from` and `try_into` must refer to the same type when both are set"@,
        MacroErrorV::JsonAndTry => "`json` cannot be combined with `try_from` / `try_into` on the same field"@,
        MacroErrorV::JsonFeature => "`json` field attribute requires the `json` feature on `crudly`"@,
        MacroErrorV::RenameAllValue => "unexpected value for rename_all"@,
        MacroErrorV::SchemaOnlyKey => "`table`, `id`, `external_ids`, and `executor` are only valid on `#[derive(Crudly)]`"@,
        MacroErrorV::UnsupportedSqlxContainer => "this `#[sqlx(...)]` container attribute is not supported on `#[derive(IntoRow)]`"@,
        MacroErrorV::UnknownSchemaKey => "unknown `#[crudly(...)]` for `Schema` (expected table, db_ids, external_ids)"@,
        MacroErrorV::ExclusiveIdStrategies => "`#[crudly(db_ids)]` and `#[crudly(external_ids)]` are mutually exclusive"@,
        MacroErrorV::SchemaOnEnum => "`Schema` derive is only supported on structs with named fields (not enums)"@,
        MacroErrorV::SchemaOnUnion => "`Schema` derive is only supported on structs with named fields (not unions)"@,
        MacroErrorV::SchemaNeedsNamedFields => "`Schema` derive requires a struct with named fields"@,
        MacroErrorV::StrategyWithoutId => "`#[crudly(db_ids)]` / `#[crudly(external_ids)]` require exactly one field marked with `#[crudly(id)]`"@,
        MacroErrorV::MultipleIds => "`#[derive(Schema)]` may only mark one field with `#[crudly(id)]`"@,
        MacroErrorV::IntoRowNotStruct => "only structs are supported for `IntoRow`"@,
        MacroErrorV::IntoRowNotNamed => "only structs with named fields are supported for `IntoRow`"@,
        MacroErrorV::NoColumns => "`IntoRow` requires at least one field that is not `skip`"@,
        MacroErrorV::InvalidType(m) => m,
        MacroErrorV::DuplicateFieldKey(k) => "duplicate `"@ + spec_field_key_name(k)
            + "` across `#[sqlx(...)]` and `#[crudly(...)]` on the same field"@,
        MacroErrorV::DuplicateContainerKey(k) => "duplicate `"@ + spec_container_key_name(k)
            + "` across `#[sqlx(...)]` and `#[crudly(...)]` on the same struct"@,
        MacroErrorV::DuplicateSchemaKey(k) => "duplicate `#[crudly("@ + spec_schema_key_name(k) + ")]` on the same type"@,
        MacroErrorV::UnknownCrudlyContainer(p) => "unknown or unsupported container attribute for `IntoRow`: "@ + p,
        MacroErrorV::UnknownSqlxContainer(p) => "unknown `#[sqlx("@ + p + ")]` for IntoRow"@,
    }
}

fn concat3(a: &str, b: &str, c: &str) -> (res: String)
    ensures
        res@ == a@ + b@ + c@,
{
    let mut s = String::from_str(a);
    s.append(b);
    s.append(c);
    s
}

impl MacroError {
    /// The message reported for the error.
    pub fn message(&self) -> (res: String)
        ensures
            res@ == error_message(self@),
    {
        match self {
            MacroError::ExpectedList => String::from_str("expected attribute arguments in parentheses"),
            MacroError::ExpectedEq => String::from_str("expected `=`"),
            MacroError::ExpectedStrLit => String::from_str("expected string literal"),
            MacroError::ExpectedComma => String::from_str("expected `,`"),
            MacroError::ExpectedIdent => String::from_str("expected identifier"),
            MacroError::UnexpectedToken => String::from_str("unexpected token"),
            MacroError::UnknownFieldAttr => String::from_str("unknown field attribute for `#[derive(IntoRow)]` (expected rename, default, flatten, skip, try_from, try_into, json)"),
            MacroError::JsonArg => String::from_str("expected `json` or `json(nullable)`"),
            MacroError::JsonAndFlatten => String::from_str("cannot use `json` and `flatten` together on the same field"),
            MacroError::FlattenAndTry => String::from_str("cannot use `flatten` with `try_from` / `try_into`"),
            MacroError::TryMismatch => String::from_str("`try_from` and `try_into` must refer to the same type when both are set"),
            MacroError::JsonAndTry => String::from_str("`json` cannot be combined with `try_from` / `try_into` on the same field"),
            MacroError::JsonFeature => String::from_str("`json` field attribute requires the `json` feature on `crudly`"),
            MacroError::RenameAllValue => String::from_str("unexpected value for rename_all"),
            MacroError::SchemaOnlyKey => String::from_str("`table`, `id`, `external_ids`, and `executor` are only valid on `#[derive(Crudly)]`"),
            MacroError::UnsupportedSqlxContainer => String::from_str("this `#[sqlx(...)]` container attribute is not supported on `#[derive(IntoRow)]`"),
            MacroError::UnknownSchemaKey => String::from_str("unknown `#[crudly(...)]` for `Schema` (expected table, db_ids, external_ids)"),
            MacroError::ExclusiveIdStrategies => String::from_str("`#[crudly(db_ids)]` and `#[crudly(external_ids)]` are mutually exclusive"),
            MacroError::SchemaOnEnum => String::from_str("`Schema` derive is only supported on structs with named fields (not enums)"),
            MacroError::SchemaOnUnion => String::from_str("`Schema` derive is only supported on structs with named fields (not unions)"),
            MacroError::SchemaNeedsNamedFields => String::from_str("`Schema` derive requires a struct with named fields"),
            MacroError::StrategyWithoutId => String::from_str("`#[crudly(db_ids)]` / `#[crudly(external_ids)]` require exactly one field marked with `#[crudly(id)]`"),
            MacroError::MultipleIds => String::from_str("`#[derive(Schema)]` may only mark one field with `#[crudly(id)]`"),
            MacroError::IntoRowNotStruct => String::from_str("only structs are supported for `IntoRow`"),
            MacroError::IntoRowNotNamed => String::from_str("only structs with named fields are supported for `IntoRow`"),
            MacroError::NoColumns => String::from_str("`IntoRow` requires at least one field that is not `skip`"),
            MacroError::InvalidType(m) => m.clone(),
            MacroError::DuplicateFieldKey(k) => concat3("duplicate `", field_key_name(*k),
                "` across `#[sqlx(...)]` and `#[crudly(...)]` on the same field"),
            MacroError::DuplicateContainerKey(k) => concat3("duplicate `", container_key_name(*k),
                "` across `#[sqlx(...)]` and `#[crudly(...)]` on the same struct"),
            MacroError::DuplicateSchemaKey(k) => concat3("duplicate `#[crudly(", schema_key_name(*k), ")]` on the same type"),
            MacroError::UnknownCrudlyContainer(p) => {
                let mut s = String::from_str("unknown or unsupported container attribute for `IntoRow`: ");
                s.append(p.as_str());
                s
            },
            MacroError::UnknownSqlxContainer(p) => concat3("unknown `#[sqlx(", p.as_str(), ")]` for IntoRow"),
        }
    }
}

} // verus!
