//! Where things are, and the names of the log files of a day.
//!
//! Logs are filed by version and day: `logs/<version>/<day>/`. Beside the days stand the time
//! of installation and the time at which the version first ran.

use vstd::prelude::*;

verus! {

pub const SUNDOWN_DIR: &'static str = "/data/adb/sundown";

pub const CONF_DIR: &'static str = "/data/adb/sundown/conf";

pub const DATA_DIR: &'static str = "/data/adb/sundown/data";

pub const LOG_DIR: &'static str = "/data/adb/sundown/logs";

pub const UPDATE_DIR: &'static str = "/data/adb/sundown/update";

pub const READY_MARKER: &'static str = "/data/adb/sundown/update/daemon.ready";

pub const INSTALLED_META: &'static str = "/data/adb/sundown/update/installed.json";

pub const SOCKET_PATH: &'static str = "/data/adb/sundown/sundownd.sock";

pub const PROBE_DIR: &'static str = "/data/adb/sundown/probe";

/// The bytes of the probe that are handed out; only root can read them.
pub const PROBE_DEX: &'static str = "/data/adb/sundown/probe/probe.dex";

pub const PROBE_OAT_DIR: &'static str = "/data/adb/sundown/probe/oat";

/// The build of the stub that is expected.
pub const PROBE_EXPECTED_HASH_FILE: &'static str = "/data/adb/modules/sundown/zygisk/probe.hash";

/// The build of the probe that is expected.
pub const PROBE_EXPECTED_DEX_HASH_FILE: &'static str = "/data/adb/modules/sundown/probe/probe.dex.hash";

/// The build of the native library that is expected.
pub const PROBE_EXPECTED_HOOK_HASH_FILE: &'static str = "/data/adb/modules/sundown/hook/hook.hash";

/// Where everyone can read the probe.
pub const PROBE_DEX_MOUNT: &'static str = "/system/etc/sundown/probe.dex";

/// The socket of the stub and the probe, in the abstract namespace.
pub const PROBE_ABSTRACT_SOCK: &'static str = "sundown_probe";

pub const POLICY_FILE: &'static str = "/data/adb/sundown/conf/policy.toml";

/// The presets.
pub const ACTION_FILE: &'static str = "/data/adb/sundown/conf/action.toml";

pub const RULES_FILE: &'static str = "/data/adb/sundown/conf/rules.toml";

/// The packages and their uids, one a line.
pub const PACKAGES_LIST: &'static str = "/data/system/packages.list";

pub const STATE_DIR: &'static str = "/data/adb/sundown/state";

/// What was frozen, one `package:uid` a line.
pub const STATE_FROZEN_FILE: &'static str = "/data/adb/sundown/state/frozen.state";

pub const VERSION_NAME: &'static str = "0.4.56-l3";

/// Grows with every release.
pub const RELEASE_NO: u32 = 61;

pub open spec fn version_dir() -> Seq<char> {
    LOG_DIR@ + "/"@ + VERSION_NAME@
}

pub open spec fn day_dir(date: Seq<char>) -> Seq<char> {
    version_dir() + "/"@ + date
}

/// The directory of this version's logs.
pub fn version_log_dir() -> (r: String)
    ensures
        r@ == version_dir(),
{
    let mut r: String = String::from_str(LOG_DIR);
    r.append("/");
    r.append(VERSION_NAME);
    r
}

/// The directory of a day's logs.
pub fn day_log_dir(date: &str) -> (r: String)
    ensures
        r@ == day_dir(date@),
{
    let mut r: String = version_log_dir();
    r.append("/");
    r.append(date);
    r
}

/// The log of a day.
pub fn current_log_file(date: &str) -> (r: String)
    ensures
        r@ == day_dir(date@) + "/sundownd.log"@,
{
    let mut r: String = day_log_dir(date);
    r.append("/sundownd.log");
    r
}

/// The events of a day.
pub fn current_event_file(date: &str) -> (r: String)
    ensures
        r@ == day_dir(date@) + "/events.jsonl"@,
{
    let mut r: String = day_log_dir(date);
    r.append("/events.jsonl");
    r
}

/// When this version was installed.
pub fn install_time_file() -> (r: String)
    ensures
        r@ == version_dir() + "/install-time"@,
{
    let mut r: String = version_log_dir();
    r.append("/install-time");
    r
}

/// When this version first ran.
pub fn effective_since_file() -> (r: String)
    ensures
        r@ == version_dir() + "/effective-since"@,
{
    let mut r: String = version_log_dir();
    r.append("/effective-since");
    r
}

} // verus!
