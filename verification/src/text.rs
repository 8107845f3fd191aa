//! Placeholder texts and the one-line identity of the host.

use vstd::prelude::*;
use vstd::string::StringExecFns;

verus! {

/// What stands in for a text that the host did not supply.
pub open spec fn unknown_text() -> Seq<char> {
    "<unknown>"@
}

/// The content of an optional text.
pub open spec fn text_of(text: Option<String>) -> Option<Seq<char>> {
    match text {
        Some(t) => Some(t@),
        None => None,
    }
}

/// The text itself, or the placeholder where there is none.
pub open spec fn or_unknown(text: Option<Seq<char>>) -> Seq<char> {
    match text {
        Some(t) => t,
        None => unknown_text(),
    }
}

/// The identity line: distribution, kernel version, architecture and long OS
/// version, each missing part replaced by the placeholder.
pub open spec fn identity_text(
    distro: Seq<char>,
    kernel: Option<Seq<char>>,
    arch: Seq<char>,
    os_version: Option<Seq<char>>,
) -> Seq<char> {
    distro + " kernel "@ + or_unknown(kernel) + " \u{2022} "@ + arch + " \u{2022} "@ + or_unknown(
        os_version,
    )
}

/// Appends `text`, or the placeholder where there is none.
fn append_or_unknown(line: &mut String, text: &Option<String>)
    ensures
        final(line)@ == old(line)@ + or_unknown(text_of(*text)),
{
    match text {
        Some(t) => line.append(t.as_str()),
        None => line.append("<unknown>"),
    }
}

/// Builds the identity line of a host from its parts.
pub fn identity_line(
    distro: &str,
    kernel: &Option<String>,
    arch: &str,
    os_version: &Option<String>,
) -> (line: String)
    ensures
        line@ == identity_text(distro@, text_of(*kernel), arch@, text_of(*os_version)),
{
    let mut line = distro.to_owned();
    line.append(" kernel ");
    append_or_unknown(&mut line, kernel);
    line.append(" \u{2022} ");
    line.append(arch);
    line.append(" \u{2022} ");
    append_or_unknown(&mut line, os_version);
    line
}

} // verus!
