//! The calls into outside crates that the formatter relies on.
use vstd::prelude::*;

use crate::text::indent_lines;

verus! {

/// What `semver::VersionReq::parse` followed by its `Display` gives for a
/// version requirement: the canonical text, or nothing where it does not parse.
pub uninterp spec fn version_req_text(s: Seq<char>) -> Option<Seq<char>>;

/// Relies on `indent_write::fmt::IndentWriter`: a fresh writer puts `indent`
/// before every non-empty line of what is written through it.
#[verifier::external_body]
pub(crate) fn write_indented(indent: &str, s: &str) -> (r: String)
    ensures
        r@ == indent_lines(indent@, s@),
{
    let mut out = String::new();
    let _ = std::fmt::Write::write_str(&mut indent_write::fmt::IndentWriter::new(indent, &mut out), s);
    out
}

/// Relies on `semver::VersionReq::parse` and on the `Display` of the parsed
/// requirement: the canonical rendering of a version range, if it parses.
#[verifier::external_body]
pub(crate) fn normalize_version_req(s: &str) -> (r: Option<String>)
    ensures
        match r {
            Some(t) => version_req_text(s@) == Some(t@),
            None => version_req_text(s@).is_none(),
        },
{
    match semver::VersionReq::parse(s) {
        Ok(req) => Some(req.to_string()),
        Err(_) => None,
    }
}

} // verus!
