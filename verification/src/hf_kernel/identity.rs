//! The package name and version an output is published under, read with
//! rattler's parsers: a name is made of ASCII letters, digits, `-`, `_` and
//! `.`; a version follows conda's version grammar.
use vstd::prelude::*;

use rattler_conda_types::{PackageName, VersionWithSource};
use std::str::FromStr;

use crate::nodejs::metadata::conda_version_of;

verus! {

#[verifier::external_type_specification]
#[verifier::external_body]
pub struct ExPackageName(PackageName);

#[verifier::external_type_specification]
#[verifier::external_body]
pub struct ExVersionWithSource(VersionWithSource);

/// The characters a conda package name may hold.
pub open spec fn is_name_char(c: char) -> bool {
    ('a' <= c && c <= 'z') || ('A' <= c && c <= 'Z') || ('0' <= c && c <= '9') || c == '-' || c
        == '_' || c == '.'
}

/// Whether every character of `s` may stand in a package name.
pub open spec fn valid_package_name(s: Seq<char>) -> bool {
    forall|i: int| 0 <= i < s.len() ==> is_name_char(#[trigger] s[i])
}

/// The package name that `PackageName::from_str` builds from a valid text.
pub uninterp spec fn package_name_of(s: Seq<char>) -> PackageName;

/// The version (with its text kept) that `VersionWithSource::from_str`
/// builds from a text that conda's version grammar accepts.
pub uninterp spec fn version_with_source_of(s: Seq<char>) -> VersionWithSource;

/// `PackageName::from_str`: accepts exactly the texts whose characters are
/// ASCII letters, digits, `-`, `_` or `.`; on failure, the error's message.
#[verifier::external_body]
fn parse_package_name(s: &str) -> (r: Result<PackageName, String>)
    ensures
        r is Ok <==> valid_package_name(s@),
        r matches Ok(n) ==> n == package_name_of(s@),
{
    match PackageName::from_str(s) {
        Ok(n) => Ok(n),
        Err(e) => Err(e.to_string()),
    }
}

/// `VersionWithSource::from_str`, which parses the text with
/// `Version::from_str` and keeps the text; on failure, the error's message.
#[verifier::external_body]
fn parse_version_with_source(s: &str) -> (r: Result<VersionWithSource, String>)
    ensures
        r is Ok <==> conda_version_of(s@) is Some,
        r matches Ok(v) ==> v == version_with_source_of(s@),
{
    match VersionWithSource::from_str(s) {
        Ok(v) => Ok(v),
        Err(e) => Err(e.to_string()),
    }
}

/// The name and version an output is published under: the name is checked
/// first, then the version.
pub fn output_identity(name: &str, version: &str) -> (r: Result<(PackageName, VersionWithSource), String>)
    ensures
        r is Ok <==> valid_package_name(name@) && conda_version_of(version@) is Some,
        r matches Ok((n, v)) ==> n == package_name_of(name@) && v == version_with_source_of(
            version@,
        ),
{
    let n = parse_package_name(name)?;
    let v = parse_version_with_source(version)?;
    Ok((n, v))
}

/// The version a built package reports, with its text kept.
pub fn output_version(version: &str) -> (r: Result<VersionWithSource, String>)
    ensures
        r is Ok <==> conda_version_of(version@) is Some,
        r matches Ok(v) ==> v == version_with_source_of(version@),
{
    parse_version_with_source(version)
}

} // verus!
