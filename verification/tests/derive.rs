use crudly::derive::attrs::{TypeTable, lookup_type, parse_field_attrs, parse_try_types, try_texts};
use crudly::derive::into_row::{BindStep, Bound, IntoRowPlan, add_field_encode_bounds, add_field_trait_bounds, expand_derive_into_row, plan_into_row};
use crudly::derive::model::{
    Attr, AttrBody, ColumnFragment, DataModel, DeriveInputModel, DerivePath, FieldKey, FieldModel, FieldsModel,
    MacroError, MetaArg, MetaItem, TypeModel,
};
use crudly::derive::schema::{IdStrategy, SchemaPlan, expand_derive_schema, plan_schema};

fn ty(name: &str) -> TypeModel {
    TypeModel { tokens: name.to_string(), path_last: Some((name.to_string(), false)) }
}

fn item(key: &str, arg: MetaArg) -> MetaItem {
    MetaItem { key: key.to_string(), arg }
}

fn flag(key: &str) -> MetaItem {
    item(key, MetaArg::Flag)
}

fn str_item(key: &str, v: &str) -> MetaItem {
    item(key, MetaArg::Str(v.to_string()))
}

fn attr(path: &str, items: Vec<MetaItem>) -> Attr {
    Attr { path: path.to_string(), body: AttrBody::List(items) }
}

fn derives(names: &[&str]) -> Attr {
    Attr {
        path: "derive".to_string(),
        body: AttrBody::Paths(
            names.iter().map(|n| DerivePath { segments: vec![n.to_string()], last_has_args: false }).collect(),
        ),
    }
}

fn field(name: &str, t: &str, attrs: Vec<Attr>) -> FieldModel {
    FieldModel { ident: name.to_string(), ty: ty(t), attrs }
}

fn input(name: &str, attrs: Vec<Attr>, fields: Vec<FieldModel>) -> DeriveInputModel {
    DeriveInputModel { ident: name.to_string(), attrs, data: DataModel::Struct(FieldsModel::Named(fields)) }
}

fn columns(fragments: &[ColumnFragment]) -> Vec<String> {
    fragments
        .iter()
        .map(|f| match f {
            ColumnFragment::Push(c) => c.clone(),
            ColumnFragment::Extend(i) => format!("<flatten {}>", i),
        })
        .collect()
}

fn schema(i: &DeriveInputModel) -> SchemaPlan {
    match expand_derive_schema(i, true) {
        Ok(p) => p,
        Err(e) => panic!("{}", e.message()),
    }
}

fn row(i: &DeriveInputModel) -> IntoRowPlan {
    match expand_derive_into_row(i, true) {
        Ok(p) => p,
        Err(e) => panic!("{}", e.message()),
    }
}

fn schema_err(i: &DeriveInputModel) -> String {
    match expand_derive_schema(i, true) {
        Ok(_) => panic!("accepted"),
        Err(e) => e.message(),
    }
}

fn row_err(i: &DeriveInputModel) -> String {
    match expand_derive_into_row(i, true) {
        Ok(_) => panic!("accepted"),
        Err(e) => e.message(),
    }
}

/// The values `bind_arguments` would bind, for fields given as their encoded text; an absent
/// optional value is given as `None` and a `json(nullable)` step binds it as SQL `NULL`.
fn bind_values(plan: &IntoRowPlan, values: &[Option<&str>]) -> Vec<Option<String>> {
    plan.binds
        .iter()
        .map(|b| match b {
            BindStep::Plain(i) | BindStep::Json(i) | BindStep::ToStringBind(i) | BindStep::Flatten(i) => {
                Some(values[*i].unwrap_or("null").to_string())
            }
            BindStep::JsonNullable(i) => values[*i].map(|v| v.to_string()),
            BindStep::TryInto(i, _) => values[*i].map(|v| v.to_string()),
        })
        .collect()
}

fn standard_derives() -> Attr {
    derives(&["FromRow", "IntoRow", "Schema"])
}

#[test]
fn plural_y_after_consonant() {
    let i = input(
        "InventoryCategory",
        vec![standard_derives()],
        vec![field("id", "i32", vec![attr("crudly", vec![flag("id")])]), field("title", "String", vec![])],
    );
    assert_eq!(schema(&i).table_name, "inventory_categories");
}

#[test]
fn test_schema_derive() {
    let i = input(
        "User",
        vec![derives(&["Default", "FromRow", "IntoRow", "Schema"]), attr("crudly", vec![str_item("table", "usersABC")])],
        vec![field("id", "i64", vec![attr("crudly", vec![flag("id")])]), field("name", "String", vec![])],
    );
    let plan = schema(&i);
    // `HasId::id` returns the id field's value: for `User { id: 1, name: "John Doe" }` that is
    // the value of field 0, `1`; `HasId::id_column` returns the id's column.
    let user_values = ["1", "John Doe"];
    let id = plan.id.as_ref().unwrap();
    assert_eq!(id.field, 0);
    assert_eq!(user_values[id.field], "1");
    assert_eq!("usersABC", plan.table_name);
    assert_eq!("id", id.column);
    assert_eq!(id.strategy, IdStrategy::DbAssigned);
    assert_eq!(columns(&plan.columns), vec!["name"]);
    assert_eq!(columns(&plan.schema_columns()), vec!["id", "name"]);
}

#[test]
fn schema_table_inferred_plural_snake() {
    let i = input(
        "SimpleRecord",
        vec![standard_derives()],
        vec![field("id", "i64", vec![attr("crudly", vec![flag("id")])]), field("name", "String", vec![])],
    );
    assert_eq!(schema(&i).table_name, "simple_records");
    assert_eq!(columns(&row(&i).columns), vec!["name"]);
}

#[test]
fn schema_table_explicit() {
    let i = input(
        "RenamedTable",
        vec![standard_derives(), attr("crudly", vec![str_item("table", "widgets")])],
        vec![field("id", "i64", vec![attr("crudly", vec![flag("id")])]), field("flag", "bool", vec![])],
    );
    assert_eq!(schema(&i).table_name, "widgets");
    assert_eq!(columns(&row(&i).columns), vec!["flag"]);
}

#[test]
fn schema_id_column_custom() {
    let i = input(
        "CustomKeyColumn",
        vec![standard_derives()],
        vec![field("row_id", "i32", vec![attr("crudly", vec![flag("id")])]), field("n", "u8", vec![])],
    );
    let plan = schema(&i);
    assert_eq!(plan.id.as_ref().unwrap().column, "row_id");
    assert_eq!(plan.table_name, "custom_key_columns");
}

#[test]
fn schema_id_renamed_and_external() {
    let i = input(
        "TinyRow",
        vec![standard_derives(), attr("crudly", vec![str_item("table", "tiny_rows"), flag("external_ids")])],
        vec![
            field("id", "i64", vec![attr("crudly", vec![flag("id")]), attr("sqlx", vec![str_item("rename", "tiny_id")])]),
            field("label", "String", vec![]),
        ],
    );
    let plan = schema(&i);
    let id = plan.id.as_ref().unwrap();
    assert_eq!(id.column, "tiny_id");
    assert_eq!(id.strategy, IdStrategy::External);
    assert_eq!(columns(&plan.columns), vec!["label"]);
}

#[test]
fn schema_without_id_is_no_id() {
    let i = input(
        "StudentXCourse",
        vec![standard_derives(), attr("crudly", vec![str_item("table", "student_x_course")])],
        vec![field("student_id", "i64", vec![]), field("course_id", "i64", vec![])],
    );
    let plan = schema(&i);
    assert!(plan.id.is_none());
    assert_eq!(columns(&plan.columns), vec!["student_id", "course_id"]);
    assert_eq!(columns(&plan.schema_columns()), vec!["student_id", "course_id"]);
}

#[test]
fn schema_refusals() {
    let id_field = || field("id", "i64", vec![attr("crudly", vec![flag("id")])]);
    let both = input("A", vec![attr("crudly", vec![flag("db_ids"), flag("external_ids")])], vec![id_field()]);
    assert_eq!(schema_err(&both), "`#[crudly(db_ids)]` and `#[crudly(external_ids)]` are mutually exclusive");
    let no_id = input("A", vec![attr("crudly", vec![flag("external_ids")])], vec![field("x", "i64", vec![])]);
    assert_eq!(
        schema_err(&no_id),
        "`#[crudly(db_ids)]` / `#[crudly(external_ids)]` require exactly one field marked with `#[crudly(id)]`"
    );
    let two_ids = input("A", vec![], vec![id_field(), field("y", "i64", vec![attr("crudly", vec![flag("id")])])]);
    assert_eq!(schema_err(&two_ids), "`#[derive(Schema)]` may only mark one field with `#[crudly(id)]`");
    let dup = input("A", vec![attr("crudly", vec![str_item("table", "a"), str_item("table", "b")])], vec![id_field()]);
    assert_eq!(schema_err(&dup), "duplicate `#[crudly(table)]` on the same type");
    let unknown = input("A", vec![attr("crudly", vec![flag("tables")])], vec![id_field()]);
    assert_eq!(schema_err(&unknown), "unknown `#[crudly(...)]` for `Schema` (expected table, db_ids, external_ids)");
    let on_enum = DeriveInputModel { ident: "E".to_string(), attrs: vec![], data: DataModel::Enum };
    assert_eq!(schema_err(&on_enum), "`Schema` derive is only supported on structs with named fields (not enums)");
    let tuple = DeriveInputModel { ident: "T".to_string(), attrs: vec![], data: DataModel::Struct(FieldsModel::Unnamed) };
    assert_eq!(schema_err(&tuple), "`Schema` derive requires a struct with named fields");
}

#[test]
fn rename_all_camel_columns_and_bind_count() {
    let i = input(
        "RenameAllCamel",
        vec![derives(&["IntoRow"]), attr("sqlx", vec![str_item("rename_all", "camelCase")])],
        vec![field("user_name", "String", vec![])],
    );
    let plan = row(&i);
    assert_eq!(columns(&plan.columns), vec!["userName"]);
    assert_eq!(plan.binds.len(), 1);
}

#[test]
fn field_rename_maps_column() {
    let i = input(
        "RenamedField",
        vec![derives(&["IntoRow"])],
        vec![field("line1", "String", vec![attr("crudly", vec![str_item("rename", "street_address")])])],
    );
    assert_eq!(columns(&row(&i).columns), vec!["street_address"]);
}

#[test]
fn skip_omits_column_and_bind() {
    let i = input(
        "Skipped",
        vec![derives(&["IntoRow"])],
        vec![field("keep", "String", vec![]), field("_skip_me", "String", vec![attr("sqlx", vec![flag("skip")])])],
    );
    let plan = row(&i);
    assert_eq!(columns(&plan.columns), vec!["keep"]);
    assert_eq!(bind_values(&plan, &[Some("kept"), Some("skip-me")]), vec![Some("kept".to_string())]);
}

#[test]
fn flatten_inlines_inner_columns_and_binds() {
    let inner = input("InnerFlat", vec![derives(&["IntoRow"])], vec![field("b", "String", vec![])]);
    let outer = input(
        "OuterFlat",
        vec![derives(&["IntoRow"])],
        vec![
            field("a", "String", vec![]),
            field("inner", "InnerFlat", vec![attr("sqlx", vec![flag("flatten")])]),
            field("c", "String", vec![]),
        ],
    );
    let inner_plan = row(&inner);
    let outer_plan = row(&outer);
    assert_eq!(columns(&inner_plan.columns), vec!["b"]);
    assert_eq!(columns(&outer_plan.columns), vec!["a", "<flatten 1>", "c"]);
    assert!(matches!(outer_plan.binds[1], BindStep::Flatten(1)));
    assert_eq!(
        bind_values(&outer_plan, &[Some("a"), Some("b"), Some("c")]),
        vec![Some("a".to_string()), Some("b".to_string()), Some("c".to_string())]
    );
    assert!(outer_plan.bounds.iter().any(|b| matches!(b, Bound::IntoRowFor(t) if t == "InnerFlat")));
}

#[test]
fn try_from_conversions() {
    for key in ["try_into", "try_from"] {
        let attr_path = if key == "try_into" { "crudly" } else { "sqlx" };
        let i = input(
            "TryField",
            vec![derives(&["IntoRow"])],
            vec![field("n", "u16", vec![attr(attr_path, vec![str_item(key, "String")])])],
        );
        let plan = row(&i);
        assert!(matches!(plan.binds[0], BindStep::ToStringBind(0)));
        assert_eq!(bind_values(&plan, &[Some("3")]), vec![Some("3".to_string())]);
        assert!(plan.bounds.iter().any(|b| matches!(b, Bound::ToStringFor(t) if t == "u16")));
        assert!(plan.bounds.iter().any(|b| matches!(b, Bound::StringEncodes)));
    }
    let i = input(
        "TryField",
        vec![derives(&["IntoRow"])],
        vec![field("n", "u16", vec![attr("sqlx", vec![str_item("try_into", "i64")])])],
    );
    let plan = row(&i);
    assert!(matches!(&plan.binds[0], BindStep::TryInto(0, t) if t == "i64"));
    assert!(plan.bounds.iter().any(|b| matches!(b, Bound::TryIntoFor(f, t) if f == "u16" && t == "i64")));
}

#[test]
fn conversion_targets_are_parsed_types() {
    let i = input(
        "TryGeneric",
        vec![derives(&["IntoRow"])],
        vec![field("n", "u16", vec![attr("sqlx", vec![str_item("try_into", "std::string::String")])])],
    );
    assert!(matches!(row(&i).binds[0], BindStep::ToStringBind(0)));
    let v = input(
        "TryVec",
        vec![derives(&["IntoRow"])],
        vec![field("n", "u16", vec![attr("sqlx", vec![str_item("try_into", "Vec<u8>")])])],
    );
    assert!(matches!(&row(&v).binds[0], BindStep::TryInto(0, t) if t == "Vec < u8 >"));
    let same = input(
        "TrySame",
        vec![derives(&["IntoRow"])],
        vec![field("n", "u16", vec![attr("sqlx", vec![str_item("try_from", "Vec<u8>"), str_item("try_into", "Vec < u8 >")])])],
    );
    assert!(matches!(&row(&same).binds[0], BindStep::TryInto(0, t) if t == "Vec < u8 >"));
    let string_with_args = input(
        "TryOdd",
        vec![derives(&["IntoRow"])],
        vec![field("n", "u16", vec![attr("sqlx", vec![str_item("try_into", "String<u8>")])])],
    );
    assert!(matches!(&row(&string_with_args).binds[0], BindStep::TryInto(0, _)));
}

#[test]
fn container_default_attribute_allowed() {
    let i = input("ContainerDefault", vec![derives(&["IntoRow"]), attr("sqlx", vec![flag("default")])], vec![field("x", "String", vec![])]);
    let plan = row(&i);
    assert_eq!(columns(&plan.columns), vec!["x"]);
    assert_eq!(bind_values(&plan, &[Some("ok")]), vec![Some("ok".to_string())]);
}

#[test]
fn sqlx_rename_all_only() {
    let i = input(
        "SplitAttrs",
        vec![derives(&["IntoRow"]), attr("sqlx", vec![str_item("rename_all", "UPPERCASE")])],
        vec![field("name", "String", vec![])],
    );
    assert_eq!(columns(&row(&i).columns), vec!["NAME"]);
}

#[test]
fn json_field_binds() {
    let i = input(
        "JsonField",
        vec![derives(&["IntoRow"])],
        vec![field("json", "JsonObject", vec![attr("sqlx", vec![flag("json")])])],
    );
    let plan = row(&i);
    assert_eq!(columns(&plan.columns), vec!["json"]);
    assert!(matches!(plan.binds[0], BindStep::Json(0)));
    assert!(plan.bounds.iter().any(|b| matches!(b, Bound::JsonEncodes(t) if t == "JsonObject")));
    assert_eq!(expand_derive_into_row(&i, false).err().unwrap().message(), "`json` field attribute requires the `json` feature on `crudly`");
}

fn json_nullable_input() -> DeriveInputModel {
    input(
        "JsonNullable",
        vec![derives(&["IntoRow"])],
        vec![field("json", "Option < JsonObject >", vec![attr("crudly", vec![item("json", MetaArg::Paren(vec![("nullable".to_string(), true)]))])])],
    )
}

#[test]
fn json_nullable_none() {
    let plan = row(&json_nullable_input());
    assert_eq!(columns(&plan.columns), vec!["json"]);
    assert!(matches!(plan.binds[0], BindStep::JsonNullable(0)));
    assert!(plan.bounds.iter().any(|b| matches!(b, Bound::NullableJsonFor(t) if t == "Option < JsonObject >")));
    assert_eq!(bind_values(&plan, &[None]), vec![None]);
}

#[test]
fn json_nullable_some() {
    let plan = row(&json_nullable_input());
    assert!(matches!(plan.binds[0], BindStep::JsonNullable(0)));
    let expected = "{\"name\":\"hi\"}";
    assert_eq!(bind_values(&plan, &[Some(expected)]), vec![Some(expected.to_string())]);
    let bad = input(
        "JsonNullable",
        vec![derives(&["IntoRow"])],
        vec![field("json", "JsonObject", vec![attr("crudly", vec![item("json", MetaArg::Paren(vec![("nully".to_string(), true)]))])])],
    );
    assert_eq!(row_err(&bad), "expected `json` or `json(nullable)`");
}

#[test]
fn encode_bounds_leave_trait_bounds_to_the_caller() {
    let flat = field("inner", "Inner", vec![attr("sqlx", vec![flag("flatten")])]);
    let no_types = TypeTable { entries: vec![] };
    let flat_attrs = parse_field_attrs(&flat, true, &no_types).ok().unwrap();
    assert!(add_field_encode_bounds(&flat, &flat_attrs).is_empty());
    let traits = add_field_trait_bounds(&flat, &flat_attrs);
    assert!(matches!(&traits[..], [Bound::IntoRowFor(t)] if t == "Inner"));
    let conv = field("n", "u16", vec![attr("sqlx", vec![str_item("try_into", "i64")])]);
    let conv_types = parse_try_types(&input("C", vec![], vec![field("n", "u16", vec![attr("sqlx", vec![str_item("try_into", "i64")])])]));
    let conv_attrs = parse_field_attrs(&conv, true, &conv_types).ok().unwrap();
    let encode = add_field_encode_bounds(&conv, &conv_attrs);
    assert!(matches!(&encode[..], [Bound::Encodes(t)] if t == "i64"));
    let traits = add_field_trait_bounds(&conv, &conv_attrs);
    assert!(matches!(&traits[..], [Bound::TryIntoFor(f, t)] if f == "u16" && t == "i64"));
    let plain = field("s", "String", vec![]);
    let plain_attrs = parse_field_attrs(&plain, true, &no_types).ok().unwrap();
    assert!(matches!(&add_field_encode_bounds(&plain, &plain_attrs)[..], [Bound::Encodes(t)] if t == "String"));
    assert!(add_field_trait_bounds(&plain, &plain_attrs).is_empty());
}

#[test]
fn field_default_attribute_allowed() {
    let i = input(
        "FieldDefaultAttr",
        vec![derives(&["IntoRow"])],
        vec![field("flag", "String", vec![attr("sqlx", vec![flag("default")])])],
    );
    let plan = row(&i);
    assert_eq!(columns(&plan.columns), vec!["flag"]);
    assert_eq!(bind_values(&plan, &[Some("set")]), vec![Some("set".to_string())]);
}

#[test]
fn row_refusals() {
    let dup = input(
        "D",
        vec![],
        vec![field("a", "String", vec![attr("sqlx", vec![str_item("rename", "x")]), attr("crudly", vec![str_item("rename", "y")])])],
    );
    assert_eq!(row_err(&dup), "duplicate `rename` across `#[sqlx(...)]` and `#[crudly(...)]` on the same field");
    assert!(matches!(expand_derive_into_row(&dup, true), Err(MacroError::DuplicateFieldKey(FieldKey::Rename))));
    let all_skipped = input("S", vec![], vec![field("a", "String", vec![attr("sqlx", vec![flag("skip")])])]);
    assert_eq!(row_err(&all_skipped), "`IntoRow` requires at least one field that is not `skip`");
    let table_without_schema = input("T", vec![attr("crudly", vec![str_item("table", "t")])], vec![field("a", "String", vec![])]);
    assert_eq!(row_err(&table_without_schema), "`table`, `id`, `external_ids`, and `executor` are only valid on `#[derive(Crudly)]`");
    let bad_case = input("B", vec![attr("sqlx", vec![str_item("rename_all", "Title Case")])], vec![field("a", "String", vec![])]);
    assert_eq!(row_err(&bad_case), "unexpected value for rename_all");
    let unknown = input("U", vec![], vec![field("a", "String", vec![attr("sqlx", vec![flag("nope")])])]);
    assert!(row_err(&unknown).starts_with("unknown field attribute"));
    let id_in_sqlx = input("U", vec![], vec![field("a", "String", vec![attr("sqlx", vec![flag("id")])])]);
    assert!(row_err(&id_in_sqlx).starts_with("unknown field attribute"));
    let flatten_json = input("F", vec![], vec![field("a", "String", vec![attr("sqlx", vec![flag("flatten"), flag("json")])])]);
    assert_eq!(row_err(&flatten_json), "cannot use `json` and `flatten` together on the same field");
    let mismatch = input("M", vec![], vec![field("a", "u8", vec![attr("sqlx", vec![str_item("try_from", "i64"), str_item("try_into", "i32")])])]);
    assert_eq!(row_err(&mismatch), "`try_from` and `try_into` must refer to the same type when both are set");
    let not_a_type = input("N", vec![], vec![field("a", "u8", vec![attr("sqlx", vec![str_item("try_from", "not a type")])])]);
    assert!(matches!(expand_derive_into_row(&not_a_type, true), Err(MacroError::InvalidType(_))));
    let flag_with_value = input("V", vec![], vec![field("a", "u8", vec![attr("sqlx", vec![str_item("skip", "yes")])])]);
    assert_eq!(row_err(&flag_with_value), "expected `,`");
    let rename_without_value = input("V", vec![], vec![field("a", "u8", vec![attr("sqlx", vec![flag("rename")])])]);
    assert_eq!(row_err(&rename_without_value), "expected `=`");
    let on_enum = DeriveInputModel { ident: "E".to_string(), attrs: vec![], data: DataModel::Enum };
    assert_eq!(row_err(&on_enum), "only structs are supported for `IntoRow`");
}

#[test]
fn bounds_are_listed_once() {
    let i = input(
        "Twice",
        vec![],
        vec![field("a", "String", vec![]), field("b", "String", vec![]), field("c", "i64", vec![])],
    );
    let plan = row(&i);
    assert_eq!(plan.bounds.len(), 2);
    assert_eq!(plan.binds.len(), 3);
}

#[test]
fn id_and_skipped_fields_are_never_bound() {
    let i = input(
        "Mixed",
        vec![standard_derives()],
        vec![
            field("id", "i64", vec![attr("crudly", vec![flag("id")])]),
            field("name", "String", vec![]),
            field("cache", "String", vec![attr("sqlx", vec![flag("skip")])]),
            field("age", "i32", vec![]),
        ],
    );
    let plan = row(&i);
    assert_eq!(columns(&plan.columns), vec!["name", "age"]);
    assert_eq!(bind_values(&plan, &[Some("1"), Some("Ann"), Some("cached"), Some("42")]), vec![Some("Ann".to_string()), Some("42".to_string())]);
    assert!(matches!(plan.binds[0], BindStep::Plain(1)));
    assert!(matches!(plan.binds[1], BindStep::Plain(3)));
    let s = schema(&i);
    assert_eq!(columns(&s.columns), columns(&plan.columns));
    assert_eq!(s.id.as_ref().unwrap().field, 0);
}

#[test]
fn container_keys_given_once() {
    let twice = input(
        "Twice",
        vec![attr("sqlx", vec![str_item("rename_all", "camelCase")]), attr("crudly", vec![str_item("rename_all", "snake_case")])],
        vec![field("a", "String", vec![])],
    );
    assert_eq!(row_err(&twice), "duplicate `rename_all` across `#[sqlx(...)]` and `#[crudly(...)]` on the same struct");
    let default_twice = input(
        "Twice",
        vec![attr("crudly", vec![flag("default"), flag("default")])],
        vec![field("a", "String", vec![])],
    );
    assert_eq!(row_err(&default_twice), "duplicate `default` across `#[sqlx(...)]` and `#[crudly(...)]` on the same struct");
    let skip_twice = input(
        "Twice",
        vec![],
        vec![field("a", "String", vec![attr("sqlx", vec![flag("skip")]), attr("crudly", vec![flag("skip")])]), field("b", "i64", vec![])],
    );
    assert_eq!(row_err(&skip_twice), "duplicate `skip` across `#[sqlx(...)]` and `#[crudly(...)]` on the same field");
}

#[test]
fn explicit_strategy_needs_one_id() {
    let db_ids = input("A", vec![attr("crudly", vec![flag("db_ids")])], vec![field("id", "i64", vec![attr("crudly", vec![flag("id")])]), field("x", "i64", vec![])]);
    assert_eq!(schema(&db_ids).id.as_ref().unwrap().strategy, IdStrategy::DbAssigned);
    let none = input("A", vec![attr("crudly", vec![flag("db_ids")])], vec![field("x", "i64", vec![])]);
    assert_eq!(
        schema_err(&none),
        "`#[crudly(db_ids)]` / `#[crudly(external_ids)]` require exactly one field marked with `#[crudly(id)]`"
    );
    let dup_strategy = input("A", vec![attr("crudly", vec![flag("db_ids"), flag("db_ids")])], vec![field("x", "i64", vec![])]);
    assert_eq!(schema_err(&dup_strategy), "duplicate `#[crudly(db_ids)]` on the same type");
}

#[test]
fn id_needs_the_schema_derive() {
    let row_only = input(
        "RowOnly",
        vec![derives(&["IntoRow"])],
        vec![field("id", "i64", vec![attr("crudly", vec![flag("id")])]), field("name", "String", vec![])],
    );
    assert_eq!(
        row_err(&row_only),
        "unknown field attribute for `#[derive(IntoRow)]` (expected rename, default, flatten, skip, try_from, try_into, json)"
    );
    let with_schema = input(
        "WithSchema",
        vec![derives(&["IntoRow", "Schema"])],
        vec![field("id", "i64", vec![attr("crudly", vec![flag("id")])]), field("name", "String", vec![])],
    );
    assert_eq!(columns(&row(&with_schema).columns), vec!["name"]);
}

#[test]
fn type_texts_parsed_once_into_a_table() {
    let i = input(
        "Conv",
        vec![],
        vec![
            field("a", "u16", vec![attr("sqlx", vec![str_item("try_into", "i64")])]),
            field("b", "u8", vec![attr("crudly", vec![str_item("try_from", "Vec<u8>"), flag("skip")]), attr("other", vec![str_item("try_into", "x")])]),
        ],
    );
    assert_eq!(try_texts(&i), vec!["i64".to_string(), "Vec<u8>".to_string()]);
    let table = parse_try_types(&i);
    assert_eq!(table.entries.len(), 2);
    assert!(matches!(lookup_type(&table, "i64"), Some(Ok(t)) if t.tokens == "i64"));
    assert!(matches!(lookup_type(&table, "Vec<u8>"), Some(Ok(t)) if t.tokens == "Vec < u8 >"));
    assert!(lookup_type(&table, "x").is_none());
    let bad = input("Bad", vec![], vec![field("a", "u16", vec![attr("sqlx", vec![str_item("try_into", "not a type")])])]);
    assert!(matches!(lookup_type(&parse_try_types(&bad), "not a type"), Some(Err(_))));
}

#[test]
fn planning_with_a_given_table() {
    let i = input("Conv", vec![], vec![field("a", "u16", vec![attr("sqlx", vec![str_item("try_into", "i64")])])]);
    let missing = plan_into_row(&i, true, &TypeTable { entries: vec![] });
    assert!(matches!(missing, Err(MacroError::InvalidType(m)) if m.is_empty()));
    let failed = TypeTable { entries: vec![("i64".to_string(), Err("bad".to_string()))] };
    assert!(matches!(plan_into_row(&i, true, &failed), Err(MacroError::InvalidType(m)) if m == "bad"));
    let given = TypeTable { entries: vec![("i64".to_string(), Ok(ty("Wide")))] };
    let plan = plan_into_row(&i, true, &given).ok().unwrap();
    assert!(matches!(&plan.binds[0], BindStep::TryInto(0, t) if t == "Wide"));
    assert!(plan_schema(&i, true, &given).is_ok());
}
