//! Well-known locations and the systemd user unit for the daemon.

use vstd::prelude::*;
use std::path::PathBuf;
use crate::text::{chars_of, push_lit, string_of};

verus! {

/// System-wide skills directory (shipped with the package).
pub const SYSTEM_SKILLS_DIR: &'static str = "/usr/share/regin/skills";

/// System-wide desired-state (to-be) directory, shipped with the package.
pub const SYSTEM_DESIRED_DIR: &'static str = "/usr/share/regin/desired";

/// System-wide notice-filter directory, shipped with the package.
pub const SYSTEM_FILTERS_DIR: &'static str = "/usr/share/regin/filters";

/// System-wide operator-skill directory, shipped with the package.
pub const SYSTEM_OPERATOR_SKILLS_DIR: &'static str = "/usr/share/regin/operator-skills";

/// System-wide plugin directory, shipped with the package.
pub const SYSTEM_PLUGINS_DIR: &'static str = "/usr/share/regin/plugins";

/// Name for the path std's `PathBuf::from` builds from a text.
pub uninterp spec fn path_of_text(s: Seq<char>) -> PathBuf;

/// std `PathBuf::from(&str)`: the path of the text `s`, named
/// `path_of_text`; the same text always gives the same path.
#[verifier::external_body]
fn path_from(s: &str) -> (r: PathBuf)
    ensures
        r == path_of_text(s@),
{
    PathBuf::from(s)
}

/// The system skills directory.
pub fn system_skills_dir() -> (r: PathBuf)
    ensures
        r == path_of_text(SYSTEM_SKILLS_DIR@),
{
    path_from(SYSTEM_SKILLS_DIR)
}

/// The system desired-state directory.
pub fn system_desired_dir() -> (r: PathBuf)
    ensures
        r == path_of_text(SYSTEM_DESIRED_DIR@),
{
    path_from(SYSTEM_DESIRED_DIR)
}

/// The system notice-filter directory.
pub fn system_filters_dir() -> (r: PathBuf)
    ensures
        r == path_of_text(SYSTEM_FILTERS_DIR@),
{
    path_from(SYSTEM_FILTERS_DIR)
}

/// The system operator-skill directory.
pub fn system_operator_skills_dir() -> (r: PathBuf)
    ensures
        r == path_of_text(SYSTEM_OPERATOR_SKILLS_DIR@),
{
    path_from(SYSTEM_OPERATOR_SKILLS_DIR)
}

/// The system plugin directory.
pub fn system_plugins_dir() -> (r: PathBuf)
    ensures
        r == path_of_text(SYSTEM_PLUGINS_DIR@),
{
    path_from(SYSTEM_PLUGINS_DIR)
}

/// The systemd user unit that runs the daemon binary at `regind_bin`.
pub open spec fn service_unit(regind_bin: Seq<char>) -> Seq<char> {
    "[Unit]\nDescription=Regin Monitoring Daemon\nAfter=default.target\n\n[Service]\nType=exec\nExecStart="@
        + regind_bin
        + "\nRestart=on-failure\nRestartSec=5\nEnvironment=RUST_LOG=info\n\n[Install]\nWantedBy=default.target\n"@
}

/// The systemd user unit file content for the daemon.
pub fn regind_service_unit(regind_bin: &str) -> (r: String)
    ensures
        r@ == service_unit(regind_bin@),
{
    let mut out = chars_of(
        "[Unit]\nDescription=Regin Monitoring Daemon\nAfter=default.target\n\n[Service]\nType=exec\nExecStart=",
    );
    push_lit(&mut out, regind_bin);
    push_lit(
        &mut out,
        "\nRestart=on-failure\nRestartSec=5\nEnvironment=RUST_LOG=info\n\n[Install]\nWantedBy=default.target\n",
    );
    string_of(&out)
}

} // verus!
