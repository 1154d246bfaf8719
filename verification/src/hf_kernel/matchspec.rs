//! Reading the package name out of a run-dependency or constraint spec,
//! such as `__cuda >=11.8`, with rattler's match-spec parser.
use vstd::prelude::*;

use rattler_conda_types::{MatchSpec, NamelessMatchSpec, ParseStrictness};

use crate::hf_kernel::variant::{debug_quote, debug_quoted};

verus! {

#[verifier::external_type_specification]
#[verifier::external_body]
pub struct ExNamelessMatchSpec(NamelessMatchSpec);

/// Whether a spec text holds no channel part: neither a `:` (the
/// `channel::name` form) nor a `[` (the bracket form with `channel=`). Only
/// a channel part makes the parser resolve paths against the working or
/// home directory.
pub open spec fn without_channel(s: Seq<char>) -> bool {
    !s.contains(':') && !s.contains('[')
}

/// What rattler's lenient match-spec parser reads from a spec text without
/// a channel part: `None` where it rejects the text, else the package name
/// where the spec names one exactly (`Some(None)` for a glob or regex name).
pub uninterp spec fn matchspec_name(s: Seq<char>) -> Option<Option<Seq<char>>>;

/// `MatchSpec::from_str(s, ParseStrictness::Lenient)` split by
/// `into_nameless`: the exact name, as written, when the name matcher is an
/// exact one, and the rest of the spec; on failure, the parser's message.
/// A channel part is resolved against the working and home directories, so
/// the result is tied to the text only for texts without one. What the
/// nameless part holds is not stated.
#[verifier::external_body]
fn parse_matchspec(spec: &str) -> (r: Result<(Option<String>, NamelessMatchSpec), String>)
    ensures
        without_channel(spec@) ==> (r matches Ok((n, _)) ==> matchspec_name(spec@) == Some(
            n.deep_view(),
        )),
        without_channel(spec@) ==> (r is Err ==> matchspec_name(spec@) is None),
{
    match MatchSpec::from_str(spec, ParseStrictness::Lenient) {
        Ok(ms) => {
            let (matcher, nameless) = ms.into_nameless();
            Ok((matcher.as_exact().map(|n| n.as_source().to_string()), nameless))
        },
        Err(e) => Err(e.to_string()),
    }
}

/// Split `name >=1.0` into its exact package name and the nameless spec. A
/// spec that does not parse gives the parser's message; one whose name is
/// not exact is refused. For a spec with a channel part nothing is stated,
/// since the parse depends on the working and home directories there.
pub fn split_matchspec(spec: &str) -> (r: Result<(String, NamelessMatchSpec), String>)
    ensures
        without_channel(spec@) ==> match matchspec_name(spec@) {
            None => r is Err,
            Some(None) => r matches Err(m) && m@ == "matchspec "@ + debug_quoted(spec@)
                + " needs an exact name"@,
            Some(Some(n)) => r matches Ok((name, _)) && name@ == n,
        },
{
    match parse_matchspec(spec) {
        Err(e) => Err(e),
        Ok((Some(name), nameless)) => Ok((name, nameless)),
        Ok((None, _)) => {
            let mut m = String::from_str("matchspec ");
            m.append(debug_quote(spec).as_str());
            m.append(" needs an exact name");
            Err(m)
        },
    }
}

} // verus!
