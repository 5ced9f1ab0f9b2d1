use vstd::prelude::*;
use convert_case::{Case, Casing};

verus! {

/// What std's lowercasing makes of a text.
pub uninterp spec fn lower_of(s: Seq<char>) -> Seq<char>;

/// What std's uppercasing makes of a text.
pub uninterp spec fn upper_of(s: Seq<char>) -> Seq<char>;

/// What std's trimming of both ends makes of a text.
pub uninterp spec fn trim_of(s: Seq<char>) -> Seq<char>;

/// What std's trimming of the start makes of a text.
pub uninterp spec fn trim_start_of(s: Seq<char>) -> Seq<char>;

/// What std's trimming of the end makes of a text.
pub uninterp spec fn trim_end_of(s: Seq<char>) -> Seq<char>;

/// What convert_case makes of a text in camelCase.
pub uninterp spec fn camel_of(s: Seq<char>) -> Seq<char>;

/// What convert_case makes of a text in kebab-case.
pub uninterp spec fn kebab_of(s: Seq<char>) -> Seq<char>;

/// What convert_case makes of a text in snake_case.
pub uninterp spec fn snake_of(s: Seq<char>) -> Seq<char>;

/// What convert_case makes of a text in UpperCamelCase.
pub uninterp spec fn upper_camel_of(s: Seq<char>) -> Seq<char>;

/// What convert_case makes of a text in UPPER-KEBAB-CASE.
pub uninterp spec fn upper_kebab_of(s: Seq<char>) -> Seq<char>;

/// What convert_case makes of a text in UPPER_SNAKE_CASE.
pub uninterp spec fn upper_snake_of(s: Seq<char>) -> Seq<char>;

/// Relies on str::to_lowercase: the result depends on the characters alone.
#[verifier::external_body]
pub(crate) fn lowercase(s: &str) -> (r: String)
    ensures
        r@ == lower_of(s@),
{
    s.to_lowercase()
}

/// Relies on str::to_uppercase: the result depends on the characters alone.
#[verifier::external_body]
pub(crate) fn uppercase(s: &str) -> (r: String)
    ensures
        r@ == upper_of(s@),
{
    s.to_uppercase()
}

/// Relies on str::trim: the text without leading and trailing white space.
#[verifier::external_body]
pub(crate) fn trim(s: &str) -> (r: String)
    ensures
        r@ == trim_of(s@),
{
    s.trim().to_string()
}

/// Relies on str::trim_start: the text without leading white space.
#[verifier::external_body]
pub(crate) fn trim_start(s: &str) -> (r: String)
    ensures
        r@ == trim_start_of(s@),
{
    s.trim_start().to_string()
}

/// Relies on str::trim_end: the text without trailing white space.
#[verifier::external_body]
pub(crate) fn trim_end(s: &str) -> (r: String)
    ensures
        r@ == trim_end_of(s@),
{
    s.trim_end().to_string()
}

/// Relies on convert_case's Casing::to_case with Case::Camel.
#[verifier::external_body]
pub(crate) fn to_camel(s: &str) -> (r: String)
    ensures
        r@ == camel_of(s@),
{
    s.to_case(Case::Camel)
}

/// Relies on convert_case's Casing::to_case with Case::Kebab.
#[verifier::external_body]
pub(crate) fn to_kebab(s: &str) -> (r: String)
    ensures
        r@ == kebab_of(s@),
{
    s.to_case(Case::Kebab)
}

/// Relies on convert_case's Casing::to_case with Case::Snake.
#[verifier::external_body]
pub(crate) fn to_snake(s: &str) -> (r: String)
    ensures
        r@ == snake_of(s@),
{
    s.to_case(Case::Snake)
}

/// Relies on convert_case's Casing::to_case with Case::UpperCamel.
#[verifier::external_body]
pub(crate) fn to_upper_camel(s: &str) -> (r: String)
    ensures
        r@ == upper_camel_of(s@),
{
    s.to_case(Case::UpperCamel)
}

/// Relies on convert_case's Casing::to_case with Case::UpperKebab.
#[verifier::external_body]
pub(crate) fn to_upper_kebab(s: &str) -> (r: String)
    ensures
        r@ == upper_kebab_of(s@),
{
    s.to_case(Case::UpperKebab)
}

/// Relies on convert_case's Casing::to_case with Case::UpperSnake.
#[verifier::external_body]
pub(crate) fn to_upper_snake(s: &str) -> (r: String)
    ensures
        r@ == upper_snake_of(s@),
{
    s.to_case(Case::UpperSnake)
}

} // verus!
