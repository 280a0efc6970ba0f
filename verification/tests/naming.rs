use crudly::naming::{infer_table_name, pluralize_ascii_identifier_base, str_eq, RenameAll};

#[test]
fn rename_all_values() {
    assert_eq!(RenameAll::parse("lowercase"), Some(RenameAll::LowerCase));
    assert_eq!(RenameAll::parse("snake_case"), Some(RenameAll::SnakeCase));
    assert_eq!(RenameAll::parse("UPPERCASE"), Some(RenameAll::UpperCase));
    assert_eq!(RenameAll::parse("SCREAMING_SNAKE_CASE"), Some(RenameAll::ScreamingSnakeCase));
    assert_eq!(RenameAll::parse("kebab-case"), Some(RenameAll::KebabCase));
    assert_eq!(RenameAll::parse("camelCase"), Some(RenameAll::CamelCase));
    assert_eq!(RenameAll::parse("PascalCase"), Some(RenameAll::PascalCase));
    assert_eq!(RenameAll::parse("Title Case"), None);
    assert_eq!(RenameAll::parse("SnakeCase"), None);
    assert_eq!(RenameAll::parse(""), None);
}

#[test]
fn rename_all_conventions() {
    assert_eq!(RenameAll::LowerCase.apply("userName"), "username");
    assert_eq!(RenameAll::UpperCase.apply("userName"), "USERNAME");
    assert_eq!(RenameAll::SnakeCase.apply("userName"), "user_name");
    assert_eq!(RenameAll::ScreamingSnakeCase.apply("user_name"), "USER_NAME");
    assert_eq!(RenameAll::KebabCase.apply("user_name"), "user-name");
    assert_eq!(RenameAll::CamelCase.apply("user_name"), "userName");
    assert_eq!(RenameAll::PascalCase.apply("user_name"), "UserName");
}

#[test]
fn plural_rules() {
    assert_eq!(pluralize_ascii_identifier_base("category"), "categories");
    assert_eq!(pluralize_ascii_identifier_base("day"), "days");
    assert_eq!(pluralize_ascii_identifier_base("y"), "ys");
    assert_eq!(pluralize_ascii_identifier_base("box"), "boxes");
    assert_eq!(pluralize_ascii_identifier_base("church"), "churches");
    assert_eq!(pluralize_ascii_identifier_base("wish"), "wishes");
    assert_eq!(pluralize_ascii_identifier_base("status"), "statuses");
    assert_eq!(pluralize_ascii_identifier_base("quiz"), "quizes");
    assert_eq!(pluralize_ascii_identifier_base("user"), "users");
    assert_eq!(pluralize_ascii_identifier_base(""), "");
}

#[test]
fn table_names_inferred() {
    assert_eq!(infer_table_name("InventoryCategory"), "inventory_categories");
    assert_eq!(infer_table_name("User"), "users");
    assert_eq!(infer_table_name("StudentXCourse"), "student_x_courses");
    assert_eq!(infer_table_name("Box"), "boxes");
}

#[test]
fn string_equality() {
    assert!(str_eq("abc", "abc"));
    assert!(!str_eq("abc", "abd"));
    assert!(!str_eq("abc", "ab"));
}
