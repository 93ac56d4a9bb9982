//! Decisions around the minifilter driver's control commands and the
//! registry-editor launcher.
//!
//! The filter-manager tool runs outside this crate; here live the
//! readings of its output: whether the filter list names the driver,
//! and what a load or unload attempt amounts to.  The registry-editor
//! launcher's path sanitization lives here too: only a conservative
//! character set survives, and the result must name a known registry
//! root.

use vstd::prelude::*;
use crate::strutil::{ascii_lower, ascii_lowercase, contains_seq, contains_str};

verus! {

/// Whether a character counts as Unicode alphanumeric, as the standard
/// library's character test decides it.
pub uninterp spec fn unicode_alphanumeric(c: char) -> bool;

/// Relies on char::is_alphanumeric: the Unicode properties of the
/// character alone decide the answer.
pub assume_specification[ char::is_alphanumeric ](c: char) -> (r: bool)
    ensures
        r == unicode_alphanumeric(c),
;

/// Name of the minifilter driver in the filter manager's output,
/// lowercased.
pub open spec fn driver_list_name() -> Seq<char> {
    "snfilter"@
}

/// Decides from the filter manager's listing whether the minifilter is
/// loaded: its name occurs in the lowercased listing.  Lowercasing
/// covers the ASCII range, which is all the tool emits.
pub fn driver_listed(stdout: &str) -> (r: bool)
    ensures
        r == contains_seq(ascii_lower(stdout@), driver_list_name()),
{
    let lower = ascii_lowercase(stdout);
    contains_str(lower.as_str(), "snfilter")
}

/// Reads a load attempt's outcome: success, or output admitting the
/// driver was already loaded, count as loaded; anything else is an
/// error carrying both output streams.
pub fn load_driver_outcome(success: bool, stdout: &str, stderr: &str) -> (r: Result<(), String>)
    ensures
        success ==> r is Ok,
        !success && (contains_seq(stdout@, "already loaded"@) || contains_seq(
            stderr@,
            "already loaded"@,
        )) ==> r is Ok,
        !success && !contains_seq(stdout@, "already loaded"@) && !contains_seq(
            stderr@,
            "already loaded"@,
        ) ==> (r matches Err(m) && m@ == "Failed to load driver: "@ + stdout@ + " "@ + stderr@),
{
    if success {
        Ok(())
    } else if contains_str(stdout, "already loaded") || contains_str(stderr, "already loaded") {
        Ok(())
    } else {
        let mut m = String::from_str("Failed to load driver: ");
        m.append(stdout);
        m.append(" ");
        m.append(stderr);
        Err(m)
    }
}

/// Reads an unload attempt's outcome.
pub fn unload_driver_outcome(success: bool, stdout: &str, stderr: &str) -> (r: Result<(), String>)
    ensures
        success ==> r is Ok,
        !success ==> (r matches Err(m) && m@ == "Failed to unload driver: "@ + stdout@ + " "@
            + stderr@),
{
    if success {
        Ok(())
    } else {
        let mut m = String::from_str("Failed to unload driver: ");
        m.append(stdout);
        m.append(" ");
        m.append(stderr);
        Err(m)
    }
}

/// Holds for the characters a registry path keeps under sanitization.
pub open spec fn registry_path_char(c: char) -> bool {
    unicode_alphanumeric(c) || c == '\\' || c == '_' || c == '-' || c == ':'
}

/// A registry path with every other character removed.
pub open spec fn sanitized_registry_path(s: Seq<char>) -> Seq<char> {
    s.filter(|c: char| registry_path_char(c))
}

/// Holds when `p` is a textual prefix of `s`.
pub open spec fn is_text_prefix(p: Seq<char>, s: Seq<char>) -> bool {
    p.len() <= s.len() && s.take(p.len() as int) == p
}

/// Holds when the path names a known registry root at its start.
pub open spec fn names_registry_root(s: Seq<char>) -> bool {
    ||| is_text_prefix("HKEY_CLASSES_ROOT"@, s)
    ||| is_text_prefix("HKCR"@, s)
    ||| is_text_prefix("HKEY_CURRENT_USER"@, s)
    ||| is_text_prefix("HKCU"@, s)
    ||| is_text_prefix("HKEY_LOCAL_MACHINE"@, s)
    ||| is_text_prefix("HKLM"@, s)
    ||| is_text_prefix("HKEY_USERS"@, s)
    ||| is_text_prefix("HKU"@, s)
    ||| is_text_prefix("HKEY_CURRENT_CONFIG"@, s)
    ||| is_text_prefix("HKCC"@, s)
}

/// Decides whether `p` is a textual prefix of `s`.
fn text_starts_with(s: &str, p: &str) -> (r: bool)
    ensures
        r == is_text_prefix(p@, s@),
{
    let n: usize = s.unicode_len();
    let m: usize = p.unicode_len();
    if m > n {
        return false;
    }
    let mut i: usize = 0;
    while i < m
        invariant
            i <= m <= n,
            n == s@.len(),
            m == p@.len(),
            forall|j: int| 0 <= j < i ==> s@[j] == p@[j],
        decreases m - i,
    {
        if s.get_char(i) != p.get_char(i) {
            proof {
                assert(s@.take(p@.len() as int)[i as int] != p@[i as int]);
            }
            return false;
        }
        i = i + 1;
    }
    proof {
        assert(s@.take(p@.len() as int) =~= p@);
    }
    true
}

/// Sanitizes a registry path: keeps alphanumeric characters,
/// backslashes, underscores, hyphens and colons, and drops everything
/// else.
pub fn sanitize_registry_path(s: &str) -> (r: String)
    ensures
        r@ == sanitized_registry_path(s@),
{
    let n: usize = s.unicode_len();
    let mut r = String::new();
    let mut i: usize = 0;
    proof {
        assert(s@.take(0) =~= Seq::<char>::empty());
        assert(r@ =~= s@.take(0).filter(|c: char| registry_path_char(c)));
    }
    while i < n
        invariant
            i <= n,
            n == s@.len(),
            r@ == s@.take(i as int).filter(|c: char| registry_path_char(c)),
        decreases n - i,
    {
        proof {
            assert(s@.take(i + 1).drop_last() =~= s@.take(i as int));
            assert(s@.take(i + 1).last() == s@[i as int]);
            reveal_with_fuel(Seq::filter, 2);
        }
        let c = s.get_char(i);
        let keep = c.is_alphanumeric() || c == '\\' || c == '_' || c == '-' || c == ':';
        if keep {
            let ghost prev = r@;
            r.push(c);
            proof {
                assert(r@ =~= prev.push(s@[i as int]));
            }
        }
        i = i + 1;
    }
    proof {
        assert(s@.take(n as int) =~= s@);
    }
    r
}

/// A string with every single quote doubled, as PowerShell's
/// single-quoted literals demand.
pub open spec fn doubled_quotes(s: Seq<char>) -> Seq<char>
    decreases s.len(),
{
    if s.len() == 0 {
        Seq::empty()
    } else {
        (if s[0] == '\'' {
            seq!['\'', '\'']
        } else {
            seq![s[0]]
        }) + doubled_quotes(s.skip(1))
    }
}

/// The shell command that points the registry editor at a key: it sets
/// the editor's last-key value, passing the key path as a quoted
/// literal with its quotes doubled.
pub open spec fn regedit_last_key_script_text(path: Seq<char>) -> Seq<char> {
    "Set-ItemProperty -Path 'HKCU:\\Software\\Microsoft\\Windows\\CurrentVersion\\Applets\\Regedit' -Name 'LastKey' -Value '"@
        + doubled_quotes(path) + "'"@
}

/// Renders the shell command that points the registry editor at a key.
pub fn regedit_last_key_script(path: &str) -> (r: String)
    ensures
        r@ == regedit_last_key_script_text(path@),
{
    let mut r = String::from_str(
        "Set-ItemProperty -Path 'HKCU:\\Software\\Microsoft\\Windows\\CurrentVersion\\Applets\\Regedit' -Name 'LastKey' -Value '",
    );
    let ghost base = r@;
    let n: usize = path.unicode_len();
    let mut i: usize = 0;
    proof {
        assert(path@.skip(0) =~= path@);
        assert(base + doubled_quotes(path@.skip(0)) =~= base + doubled_quotes(path@));
    }
    while i < n
        invariant
            i <= n,
            n == path@.len(),
            r@ + doubled_quotes(path@.skip(i as int)) == base + doubled_quotes(path@),
        decreases n - i,
    {
        let c = path.get_char(i);
        let ghost prev = r@;
        if c == '\'' {
            r.push('\'');
            r.push('\'');
            proof {
                assert(prev.push('\'').push('\'') =~= prev + seq!['\'', '\'']);
            }
        } else {
            r.push(c);
            proof {
                assert(prev.push(c) =~= prev + seq![c]);
            }
        }
        proof {
            let rest = path@.skip(i as int);
            assert(rest[0] == path@[i as int]);
            assert(rest.skip(1) =~= path@.skip(i + 1));
            let step: Seq<char> = if path@[i as int] == '\'' {
                seq!['\'', '\'']
            } else {
                seq![path@[i as int]]
            };
            assert(prev + step + doubled_quotes(path@.skip(i + 1)) =~= prev + (step
                + doubled_quotes(path@.skip(i + 1))));
        }
        i = i + 1;
    }
    proof {
        assert(path@.skip(n as int) =~= Seq::<char>::empty());
        assert(r@ + doubled_quotes(path@.skip(n as int)) =~= r@);
    }
    r.append("'");
    r
}

/// Prepares a user-supplied registry path for the registry-editor
/// launcher: sanitizes it and demands that the result names a known
/// registry root.
pub fn prepare_registry_editor_path(path: &str) -> (r: Result<String, String>)
    ensures
        names_registry_root(sanitized_registry_path(path@)) ==> (r matches Ok(p) && p@
            == sanitized_registry_path(path@)),
        !names_registry_root(sanitized_registry_path(path@)) ==> (r matches Err(m) && m@
            == "Invalid registry path: must start with a valid registry root"@),
{
    let sanitized = sanitize_registry_path(path);
    let ok = text_starts_with(sanitized.as_str(), "HKEY_CLASSES_ROOT") || text_starts_with(
        sanitized.as_str(),
        "HKCR",
    ) || text_starts_with(sanitized.as_str(), "HKEY_CURRENT_USER") || text_starts_with(
        sanitized.as_str(),
        "HKCU",
    ) || text_starts_with(sanitized.as_str(), "HKEY_LOCAL_MACHINE") || text_starts_with(
        sanitized.as_str(),
        "HKLM",
    ) || text_starts_with(sanitized.as_str(), "HKEY_USERS") || text_starts_with(
        sanitized.as_str(),
        "HKU",
    ) || text_starts_with(sanitized.as_str(), "HKEY_CURRENT_CONFIG") || text_starts_with(
        sanitized.as_str(),
        "HKCC",
    );
    if ok {
        Ok(sanitized)
    } else {
        Err(String::from_str("Invalid registry path: must start with a valid registry root"))
    }
}

} // verus!
