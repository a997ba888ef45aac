//! Page metadata read from a front-matter block.  The YAML text itself
//! is parsed by an outside library; what each lookup returns is a
//! function of the text alone and is therefore given a name, and the
//! schema — which keys are read, which are required, which spelling of
//! a footer key wins, and exactly when metadata building fails — is
//! this library's own logic, stated and verified here over those
//! names.

use vstd::prelude::*;

use crate::man_node::TitleLine;
use crate::man_node::TitleLineV;
use crate::man_node::opt_view;

verus! {

/// Why a front-matter block could not be turned into page metadata.
/// Metadata errors are fatal to a conversion: the driver aborts before
/// any output is produced.
#[derive(Clone, Copy, Debug, PartialEq, Eq, Structural)]
pub enum MetadataError {
    /// The block is not well-formed YAML.
    Unparsable,
    /// The required `name` key is absent or not a string.
    MissingName,
    /// The required `section` key is absent or not an integer.
    MissingSection,
    /// The `section` value does not fit a manual section number.
    SectionOutOfRange,
}

/// Whether serde_yaml::from_str accepts the text as well-formed YAML:
/// a function of the text alone.
pub uninterp spec fn yaml_parses(s: Seq<char>) -> bool;

/// The string standing under `key` in the YAML text `s`, or `None`
/// when the text does not parse, the document is no mapping, the key
/// is absent, or its value is no string: what serde_yaml's parse
/// followed by `Value::get` and `Value::as_str` returns, a function of
/// the text and the key alone.
pub uninterp spec fn yaml_str_under(s: Seq<char>, key: Seq<char>) -> Option<Seq<char>>;

/// The integer standing under `key` in the YAML text `s`, or `None`
/// when the text does not parse, the document is no mapping, the key
/// is absent, or its value is no fitting integer: what serde_yaml's
/// parse followed by `Value::get` and `Value::as_u64` returns, a
/// function of the text and the key alone.
pub uninterp spec fn yaml_u64_under(s: Seq<char>, key: Seq<char>) -> Option<u64>;

/// Relies on serde_yaml::from_str::<Value>: whether the text is
/// well-formed YAML.  The parser is deterministic, so the outcome
/// depends on the text alone.
#[verifier::external_body]
fn yaml_parse_ok(s: &str) -> (r: bool)
    ensures
        r == yaml_parses(s@),
{
    serde_yaml::from_str::<serde_yaml::Value>(s).is_ok()
}

/// Relies on serde_yaml::from_str::<Value>, Value::get and
/// Value::as_str: the string under `key` in the YAML text, as
/// [`yaml_str_under`] names it.
#[verifier::external_body]
fn yaml_get_string(s: &str, key: &str) -> (r: Option<String>)
    ensures
        opt_view(r) == yaml_str_under(s@, key@),
{
    match serde_yaml::from_str::<serde_yaml::Value>(s) {
        Ok(v) => match v.get(key) {
            Some(f) => match f.as_str() {
                Some(x) => Some(x.to_owned()),
                None => None,
            },
            None => None,
        },
        Err(_) => None,
    }
}

/// Relies on serde_yaml::from_str::<Value>, Value::get and
/// Value::as_u64: the integer under `key` in the YAML text, as
/// [`yaml_u64_under`] names it.
#[verifier::external_body]
fn yaml_get_u64(s: &str, key: &str) -> (r: Option<u64>)
    ensures
        r == yaml_u64_under(s@, key@),
{
    match serde_yaml::from_str::<serde_yaml::Value>(s) {
        Ok(v) => match v.get(key) {
            Some(f) => f.as_u64(),
            None => None,
        },
        Err(_) => None,
    }
}

/// The string under `key`, or under `alias` where `key` holds none:
/// the first spelling wins where both appear.
pub open spec fn yaml_str_aliased(s: Seq<char>, key: Seq<char>, alias: Seq<char>) -> Option<
    Seq<char>,
> {
    match yaml_str_under(s, key) {
        Some(v) => Some(v),
        None => yaml_str_under(s, alias),
    }
}

/// The string under `key`, falling back to `alias`, as
/// [`yaml_str_aliased`] states.
fn get_string_aliased(s: &str, key: &str, alias: &str) -> (r: Option<String>)
    ensures
        opt_view(r) == yaml_str_aliased(s@, key@, alias@),
{
    match yaml_get_string(s, key) {
        Some(v) => Some(v),
        None => yaml_get_string(s, alias),
    }
}

/// Builds the title-line metadata from the raw front-matter fields.
/// `name` and `section` are required and the section must fit a manual
/// section number; the remaining fields are carried through as given.
pub fn build_title_line(
    name: Option<String>,
    section: Option<u64>,
    date: Option<String>,
    left_footer: Option<String>,
    center_footer: Option<String>,
) -> (r: Result<TitleLine, MetadataError>)
    ensures
        r is Ok <==> (name is Some && section is Some && section->0 <= u8::MAX),
        name is None ==> r == Err::<TitleLine, MetadataError>(MetadataError::MissingName),
        name is Some && section is None ==> r == Err::<TitleLine, MetadataError>(
            MetadataError::MissingSection,
        ),
        name is Some && section is Some && section->0 > u8::MAX ==> r == Err::<
            TitleLine,
            MetadataError,
        >(MetadataError::SectionOutOfRange),
        r is Ok ==> r->Ok_0@ == (TitleLineV {
            name: name->0@,
            section: section->0 as u8,
            date: opt_view(date),
            left_footer: opt_view(left_footer),
            center_footer: opt_view(center_footer),
        }),
{
    match name {
        None => Err(MetadataError::MissingName),
        Some(n) => match section {
            None => Err(MetadataError::MissingSection),
            Some(s) => {
                if s > 255 {
                    Err(MetadataError::SectionOutOfRange)
                } else {
                    Ok(
                        TitleLine {
                            name: n,
                            section: s as u8,
                            date,
                            left_footer,
                            center_footer,
                        },
                    )
                }
            },
        },
    }
}

/// Reads page metadata from the text of a front-matter block: the
/// required `name` (string) and `section` (integer) keys, the optional
/// `date` string, and the two optional footers, each accepted under
/// its underscore or, failing that, its hyphenated spelling.  Text
/// that is not well-formed YAML is rejected outright; otherwise
/// success and every field of the result are pinned to the named
/// lookups, and each error comes exactly where stated.
pub fn parse_front_matter(s: &str) -> (r: Result<TitleLine, MetadataError>)
    ensures
        r is Ok <==> (yaml_parses(s@) && yaml_str_under(s@, "name"@) is Some && yaml_u64_under(
            s@,
            "section"@,
        ) is Some && yaml_u64_under(s@, "section"@)->0 <= u8::MAX),
        !yaml_parses(s@) ==> r == Err::<TitleLine, MetadataError>(MetadataError::Unparsable),
        yaml_parses(s@) && yaml_str_under(s@, "name"@) is None ==> r == Err::<
            TitleLine,
            MetadataError,
        >(MetadataError::MissingName),
        yaml_parses(s@) && yaml_str_under(s@, "name"@) is Some && yaml_u64_under(
            s@,
            "section"@,
        ) is None ==> r == Err::<TitleLine, MetadataError>(MetadataError::MissingSection),
        yaml_parses(s@) && yaml_str_under(s@, "name"@) is Some && yaml_u64_under(
            s@,
            "section"@,
        ) is Some && yaml_u64_under(s@, "section"@)->0 > u8::MAX ==> r == Err::<
            TitleLine,
            MetadataError,
        >(MetadataError::SectionOutOfRange),
        r is Ok ==> r->Ok_0@ == (TitleLineV {
            name: yaml_str_under(s@, "name"@)->0,
            section: yaml_u64_under(s@, "section"@)->0 as u8,
            date: yaml_str_under(s@, "date"@),
            left_footer: yaml_str_aliased(s@, "left_footer"@, "left-footer"@),
            center_footer: yaml_str_aliased(s@, "center_footer"@, "center-footer"@),
        }),
{
    if !yaml_parse_ok(s) {
        return Err(MetadataError::Unparsable);
    }
    let name = yaml_get_string(s, "name");
    let section = yaml_get_u64(s, "section");
    let date = yaml_get_string(s, "date");
    let left_footer = get_string_aliased(s, "left_footer", "left-footer");
    let center_footer = get_string_aliased(s, "center_footer", "center-footer");
    build_title_line(name, section, date, left_footer, center_footer)
}

} // verus!
