//! Looking for updates: where, for what, and what is done with one.

use vstd::prelude::*;

use crate::config::AppSettings;
use crate::text::{chars_of, same_text, trim, trimmed};

verus! {

/// Where updates are listed, unless the build says otherwise.
pub fn default_manifest_url() -> (r: &'static str)
    ensures
        r@ == "https://updates.openlogi.org/channels/stable/latest.json"@,
{
    "https://updates.openlogi.org/channels/stable/latest.json"
}

/// The key that updates are signed with, as the build has it: without white
/// space around it, and `None` where nothing is left.
pub fn minisign_public_key(embedded: Option<&str>) -> (r: Option<String>)
    ensures
        r.deep_view() == match embedded {
            Some(key) => if trimmed(key@).len() > 0 {
                Some(trimmed(key@))
            } else {
                None
            },
            None => None,
        },
{
    match embedded {
        Some(key) => {
            let key = trim(key);
            if chars_of(key.as_str()).len() > 0 {
                Some(key)
            } else {
                None
            }
        },
        None => None,
    }
}

/// What releases call an architecture.
pub fn release_arch(arch: &str) -> (r: String)
    ensures
        r@ == crate::diagnostics::arch_text(arch@),
{
    crate::diagnostics::arch_label(arch)
}

/// What releases are packed as.
pub open spec fn format_of(os: Seq<char>) -> Seq<char> {
    if os == "macos"@ {
        "dmg"@
    } else if os == "windows"@ {
        "msi"@
    } else {
        "tar.gz"@
    }
}

/// What releases are packed as.
pub fn release_format(os: &str) -> (r: &'static str)
    ensures
        r@ == format_of(os@),
{
    if same_text(os, "macos") {
        "dmg"
    } else if same_text(os, "windows") {
        "msi"
    } else {
        "tar.gz"
    }
}

/// How far looking for an update got.
#[derive(Clone, Copy, Debug, PartialEq, Eq, Structural)]
pub enum UpdateStatus {
    Idle,
    Checking,
    UpToDate,
    /// There is one.
    Available,
    Downloading,
    /// It is there on the next start.
    Staged,
    Failed,
}

/// Whether an update that was found is fetched without being asked for.
pub fn installs_by_itself(settings: Option<&AppSettings>, status: UpdateStatus) -> (r: bool)
    ensures
        r == (settings is Some && settings->0.auto_install_updates && status
            == UpdateStatus::Available),
{
    match settings {
        Some(settings) => settings.auto_install_updates && status == UpdateStatus::Available,
        None => false,
    }
}

/// Whether it is asked at the start if updates may be looked for: once.
pub fn asks_for_consent(settings: &AppSettings) -> (r: bool)
    ensures
        r == !settings.update_prompt_seen,
{
    !settings.update_prompt_seen
}

/// Whether updates are looked for at the start.
pub fn checks_at_start(settings: &AppSettings) -> (r: bool)
    ensures
        r == settings.check_for_updates,
{
    settings.check_for_updates
}

/// A release is packed as the host installs it.
pub proof fn a_release_is_packed_for_its_host(os: Seq<char>)
    ensures
        format_of("macos"@) == "dmg"@,
        format_of("windows"@) == "msi"@,
        os != "macos"@ && os != "windows"@ ==> format_of(os) == "tar.gz"@,
{
    reveal_strlit("macos");
    reveal_strlit("windows");
    assert("macos"@ != "windows"@) by {
        assert("macos"@.len() == 5);
        assert("windows"@.len() == 7);
    }
}

} // verus!
