//! Column and table naming: the `rename_all` case conventions and the plural table names the
//! schema derive infers.

use vstd::prelude::*;
use vstd::string::*;

verus! {

/// What `heck`'s `ToSnakeCase::to_snake_case` returns for a string.
pub uninterp spec fn snake_case(s: Seq<char>) -> Seq<char>;

/// What `heck`'s `ToKebabCase::to_kebab_case` returns for a string.
pub uninterp spec fn kebab_case(s: Seq<char>) -> Seq<char>;

/// What `heck`'s `ToShoutySnakeCase::to_shouty_snake_case` returns for a string.
pub uninterp spec fn shouty_snake_case(s: Seq<char>) -> Seq<char>;

/// What `heck`'s `ToLowerCamelCase::to_lower_camel_case` returns for a string.
pub uninterp spec fn lower_camel_case(s: Seq<char>) -> Seq<char>;

/// What `heck`'s `ToUpperCamelCase::to_upper_camel_case` returns for a string.
pub uninterp spec fn upper_camel_case(s: Seq<char>) -> Seq<char>;

/// What `str::to_lowercase` returns for a string.
pub uninterp spec fn unicode_lowercase(s: Seq<char>) -> Seq<char>;

/// What `str::to_uppercase` returns for a string.
pub uninterp spec fn unicode_uppercase(s: Seq<char>) -> Seq<char>;

/// Calls `heck::ToSnakeCase::to_snake_case`. The contract only names the result: it depends on
/// the input alone (heck splits words at case changes and non-alphanumerics, lowercases them
/// and joins them with `_`), and is not written out here.
#[verifier::external_body]
fn to_snake_case(s: &str) -> (res: String)
    ensures
        res@ == snake_case(s@),
{
    heck::ToSnakeCase::to_snake_case(s)
}

/// Calls `heck::ToKebabCase::to_kebab_case`; the result is named, as for snake case, with `-`
/// between the lowercased words.
#[verifier::external_body]
fn to_kebab_case(s: &str) -> (res: String)
    ensures
        res@ == kebab_case(s@),
{
    heck::ToKebabCase::to_kebab_case(s)
}

/// Calls `heck::ToShoutySnakeCase::to_shouty_snake_case`; the result is named, as for snake
/// case, with the words uppercased.
#[verifier::external_body]
fn to_shouty_snake_case(s: &str) -> (res: String)
    ensures
        res@ == shouty_snake_case(s@),
{
    heck::ToShoutySnakeCase::to_shouty_snake_case(s)
}

/// Calls `heck::ToLowerCamelCase::to_lower_camel_case`; the result is named: the words
/// capitalized and joined, the first one lowercased.
#[verifier::external_body]
fn to_lower_camel_case(s: &str) -> (res: String)
    ensures
        res@ == lower_camel_case(s@),
{
    heck::ToLowerCamelCase::to_lower_camel_case(s)
}

/// Calls `heck::ToUpperCamelCase::to_upper_camel_case`; the result is named: the words
/// capitalized and joined.
#[verifier::external_body]
fn to_upper_camel_case(s: &str) -> (res: String)
    ensures
        res@ == upper_camel_case(s@),
{
    heck::ToUpperCamelCase::to_upper_camel_case(s)
}

/// Calls `str::to_lowercase`; the result (the Unicode lowercase mapping of every character) is
/// named.
#[verifier::external_body]
fn to_lowercase(s: &str) -> (res: String)
    ensures
        res@ == unicode_lowercase(s@),
{
    s.to_lowercase()
}

/// Calls `str::to_uppercase`; the result (the Unicode uppercase mapping of every character) is
/// named.
#[verifier::external_body]
fn to_uppercase(s: &str) -> (res: String)
    ensures
        res@ == unicode_uppercase(s@),
{
    s.to_uppercase()
}

/// The case conventions that `rename_all` accepts.
#[derive(Copy, Clone, Debug, PartialEq, Eq, Structural)]
pub enum RenameAll {
    LowerCase,
    SnakeCase,
    UpperCase,
    ScreamingSnakeCase,
    KebabCase,
    CamelCase,
    PascalCase,
}

/// The convention that a `rename_all` value names, if any.
pub open spec fn rename_all_named(value: Seq<char>) -> Option<RenameAll> {
    if value == "lowercase"@ {
        Some(RenameAll::LowerCase)
    } else if value == "snake_case"@ {
        Some(RenameAll::SnakeCase)
    } else if value == "UPPERCASE"@ {
        Some(RenameAll::UpperCase)
    } else if value == "SCREAMING_SNAKE_CASE"@ {
        Some(RenameAll::ScreamingSnakeCase)
    } else if value == "kebab-case"@ {
        Some(RenameAll::KebabCase)
    } else if value == "camelCase"@ {
        Some(RenameAll::CamelCase)
    } else if value == "PascalCase"@ {
        Some(RenameAll::PascalCase)
    } else {
        None
    }
}

/// Whether two strings hold the same characters.
pub fn str_eq(a: &str, b: &str) -> (res: bool)
    ensures
        res == (a@ == b@),
{
    String::from_str(a) == String::from_str(b)
}

impl RenameAll {
    /// The column name that the convention makes of a field name.
    pub open spec fn spec_apply(self, ident: Seq<char>) -> Seq<char> {
        match self {
            RenameAll::LowerCase => unicode_lowercase(ident),
            RenameAll::SnakeCase => snake_case(ident),
            RenameAll::UpperCase => unicode_uppercase(ident),
            RenameAll::ScreamingSnakeCase => shouty_snake_case(ident),
            RenameAll::KebabCase => kebab_case(ident),
            RenameAll::CamelCase => lower_camel_case(ident),
            RenameAll::PascalCase => upper_camel_case(ident),
        }
    }

    /// The convention named by a `rename_all` value; `None` for any other value.
    pub fn parse(value: &str) -> (res: Option<RenameAll>)
        ensures
            res == rename_all_named(value@),
    {
        if str_eq(value, "lowercase") {
            Some(RenameAll::LowerCase)
        } else if str_eq(value, "snake_case") {
            Some(RenameAll::SnakeCase)
        } else if str_eq(value, "UPPERCASE") {
            Some(RenameAll::UpperCase)
        } else if str_eq(value, "SCREAMING_SNAKE_CASE") {
            Some(RenameAll::ScreamingSnakeCase)
        } else if str_eq(value, "kebab-case") {
            Some(RenameAll::KebabCase)
        } else if str_eq(value, "camelCase") {
            Some(RenameAll::CamelCase)
        } else if str_eq(value, "PascalCase") {
            Some(RenameAll::PascalCase)
        } else {
            None
        }
    }

    /// The column name that the convention makes of a field name.
    pub fn apply(self, ident: &str) -> (res: String)
        ensures
            res@ == self.spec_apply(ident@),
    {
        match self {
            RenameAll::LowerCase => to_lowercase(ident),
            RenameAll::SnakeCase => to_snake_case(ident),
            RenameAll::UpperCase => to_uppercase(ident),
            RenameAll::ScreamingSnakeCase => to_shouty_snake_case(ident),
            RenameAll::KebabCase => to_kebab_case(ident),
            RenameAll::CamelCase => to_lower_camel_case(ident),
            RenameAll::PascalCase => to_upper_camel_case(ident),
        }
    }
}

/// A vowel, or `y`.
pub open spec fn is_vowel_or_y(c: char) -> bool {
    c == 'a' || c == 'e' || c == 'i' || c == 'o' || c == 'u' || c == 'y'
}

/// Whether `w` ends with the two characters `a`, `b`.
pub open spec fn ends_with2(w: Seq<char>, a: char, b: char) -> bool {
    w.len() >= 2 && w[w.len() - 2] == a && w[w.len() - 1] == b
}

/// The plural of a snake-case singular, by English spelling rules: a `y` after a consonant
/// becomes `ies`; after `ch`, `sh`, `s`, `x` or `z` comes `es`; else `s`. The empty word stays
/// empty.
pub open spec fn plural(w: Seq<char>) -> Seq<char> {
    if w.len() == 0 {
        w
    } else if w.last() == 'y' && w.len() >= 2 && !is_vowel_or_y(w[w.len() - 2]) {
        w.drop_last() + seq!['i', 'e', 's']
    } else if ends_with2(w, 'c', 'h') || ends_with2(w, 's', 'h') || w.last() == 's' || w.last() == 'x'
        || w.last() == 'z' {
        w + seq!['e', 's']
    } else {
        w + seq!['s']
    }
}

/// The plural follows English spelling, case by case, for every word `w`:
/// - a `y` after a consonant becomes `ies` (`category` → `categories`);
/// - a `y` after a vowel or another `y` (`a`, `e`, `i`, `o`, `u`, `y`), or a lone `y`, takes an
///   `s` (`key` → `keys`, `day` → `days`);
/// - a word ending in `s`, `x`, `z`, `ch` or `sh` takes `es` (`box` → `boxes`);
/// - any other non-empty word takes an `s`; the empty word stays empty.
pub proof fn lemma_plural_rules(w: Seq<char>)
    ensures
        w.len() == 0 ==> plural(w) == w,
        w.len() >= 2 && w.last() == 'y' && !(w[w.len() - 2] == 'a' || w[w.len() - 2] == 'e' || w[w.len() - 2] == 'i'
            || w[w.len() - 2] == 'o' || w[w.len() - 2] == 'u' || w[w.len() - 2] == 'y')
            ==> plural(w) == w.drop_last() + seq!['i', 'e', 's'],
        w.len() >= 2 && w.last() == 'y' && (w[w.len() - 2] == 'a' || w[w.len() - 2] == 'e' || w[w.len() - 2] == 'i'
            || w[w.len() - 2] == 'o' || w[w.len() - 2] == 'u' || w[w.len() - 2] == 'y')
            ==> plural(w) == w + seq!['s'],
        w == seq!['y'] ==> plural(w) == w + seq!['s'],
        w.len() >= 1 && (w.last() == 's' || w.last() == 'x' || w.last() == 'z'
            || (w.len() >= 2 && w[w.len() - 2] == 'c' && w.last() == 'h')
            || (w.len() >= 2 && w[w.len() - 2] == 's' && w.last() == 'h'))
            ==> plural(w) == w + seq!['e', 's'],
        w.len() >= 1 && w.last() != 'y' && w.last() != 's' && w.last() != 'x' && w.last() != 'z'
            && !(w.len() >= 2 && w[w.len() - 2] == 'c' && w.last() == 'h')
            && !(w.len() >= 2 && w[w.len() - 2] == 's' && w.last() == 'h')
            ==> plural(w) == w + seq!['s'],
{
}

/// Pluralizes a snake-case singular: `category` becomes `categories`, `box` becomes `boxes`,
/// `user` becomes `users`.
pub fn pluralize_ascii_identifier_base(snake_singular: &str) -> (res: String)
    ensures
        res@ == plural(snake_singular@),
{
    let w = snake_singular;
    let len = w.unicode_len();
    if len == 0 {
        return String::from_str(w);
    }
    let last = w.get_char(len - 1);
    let penultimate_not_vowel = len >= 2 && {
        let p = w.get_char(len - 2);
        !(p == 'a' || p == 'e' || p == 'i' || p == 'o' || p == 'u' || p == 'y')
    };
    if last == 'y' && penultimate_not_vowel {
        let stem = w.substring_char(0, len - 1);
        proof { reveal_strlit("ies"); }
        let mut res = String::from_str(stem);
        res.append("ies");
        assert(stem@ =~= w@.drop_last());
        res
    } else {
        let ends_ch = len >= 2 && w.get_char(len - 2) == 'c' && last == 'h';
        let ends_sh = len >= 2 && w.get_char(len - 2) == 's' && last == 'h';
        if ends_ch || ends_sh || last == 's' || last == 'x' || last == 'z' {
            proof { reveal_strlit("es"); }
            let mut res = String::from_str(w);
            res.append("es");
            res
        } else {
            proof { reveal_strlit("s"); }
            let mut res = String::from_str(w);
            res.append("s");
            res
        }
    }
}

/// The table name inferred for a struct: the plural of its name in snake case.
pub open spec fn inferred_table_name(struct_ident: Seq<char>) -> Seq<char> {
    plural(snake_case(struct_ident))
}

/// Infers the table name of a struct from its name: `InventoryCategory` gives
/// `inventory_categories`.
pub fn infer_table_name(struct_ident: &str) -> (res: String)
    ensures
        res@ == inferred_table_name(struct_ident@),
{
    let snake = to_snake_case(struct_ident);
    pluralize_ascii_identifier_base(snake.as_str())
}

} // verus!
