//! Running under WSL: how it is told, and the image that Windows dumps there.
use crate::outside::unicode;
use crate::text;
use vstd::prelude::*;
use vstd::utf8::*;

verus! {

/// Whether a kernel version in lower case is that of WSL.
pub open spec fn lowered_version_is_wsl(lowered: Seq<char>) -> bool {
    text::occurs_in("microsoft"@, lowered) || text::occurs_in("wsl"@, lowered)
}

/// Whether the machine is taken for WSL: by its kernel version, or else by the
/// environment variables that WSL sets.
pub open spec fn looks_like_wsl(
    version: Option<Seq<char>>,
    has_distro_name: bool,
    has_interop: bool,
) -> bool {
    ||| version is Some && lowered_version_is_wsl(unicode::lowercase(version->0))
    ||| has_distro_name
    ||| has_interop
}

/// Whether a kernel version in lower case is that of WSL.
pub fn mentions_wsl(lowered: &str) -> (r: bool)
    ensures
        r == lowered_version_is_wsl(lowered@),
{
    text::contains_text(lowered, "microsoft") || text::contains_text(lowered, "wsl")
}

/// Whether the machine is taken for WSL, from its kernel version if it can be
/// read, and from whether `WSL_DISTRO_NAME` and `WSL_INTEROP` are set.
pub fn is_probably_wsl(version: Option<&str>, has_distro_name: bool, has_interop: bool) -> (r: bool)
    ensures
        r == looks_like_wsl(
            match version {
                Some(v) => Some(v@),
                None => None,
            },
            has_distro_name,
            has_interop,
        ),
        version matches Some(v) ==> (is_ascii_chars(v@) ==> r == (lowered_version_is_wsl(
            v@.map_values(|c: char| unicode::ascii_lower(c)),
        ) || has_distro_name || has_interop)),
{
    if let Some(v) = version {
        let lowered: String = unicode::lowercase_text(v);
        if mentions_wsl(lowered.as_str()) {
            return true;
        }
    }
    has_distro_name || has_interop
}

/// The commands that may start PowerShell, in the order in which they are tried.
pub open spec fn powershell_names() -> Seq<Seq<char>> {
    seq!["powershell.exe"@, "pwsh"@, "powershell"@]
}

/// The commands that may start PowerShell, in the order in which they are tried.
pub fn powershell_commands() -> (r: Vec<&'static str>)
    ensures
        r@.map_values(|s: &'static str| s@) == powershell_names(),
{
    let names: Vec<&'static str> = vec!["powershell.exe", "pwsh", "powershell"];
    assert(names@.map_values(|s: &'static str| s@) =~= powershell_names());
    names
}

/// The Windows path in the output of a command that was to print one.
pub open spec fn printed_path(success: bool, printed: Seq<char>) -> Option<Seq<char>> {
    if success && text::trimmed(printed).len() > 0 {
        Some(text::trimmed(printed))
    } else {
        None
    }
}

/// The Windows path that a command printed as text.
pub fn path_in_output(success: bool, printed: &str) -> (r: Option<String>)
    ensures
        match r {
            Some(p) => printed_path(success, printed@) == Some(p@),
            None => printed_path(success, printed@) is None,
        },
{
    let path: &str = text::trim(printed);
    if success && !path.is_empty() {
        Some(path.to_string())
    } else {
        None
    }
}

/// The Windows path that a command printed, from its exit and its output.
pub fn dumped_image_path(success: bool, output: &[u8]) -> (r: Option<String>)
    ensures
        match r {
            Some(p) => printed_path(success, unicode::lossy_text(output@)) == Some(p@),
            None => printed_path(success, unicode::lossy_text(output@)) is None,
        },
        valid_utf8(output@) ==> match r {
            Some(p) => printed_path(success, decode_utf8(output@)) == Some(p@),
            None => printed_path(success, decode_utf8(output@)) is None,
        },
{
    let printed: String = unicode::decode_lossy(output);
    path_in_output(success, printed.as_str())
}

} // verus!
