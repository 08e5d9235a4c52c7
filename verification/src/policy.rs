//! The freezing policy: the model of `policy.toml`.
//!
//! A file that does not parse leaves the old policy in force; unknown tables and keys
//! are ignored.

use vstd::prelude::*;
use crate::names::{contains_name, value_of, with_key, NameMap};
use crate::lists::texts;
use crate::text::{chars_of, find, head, parse_u32, str_eq, tail, trim};
use crate::toml::{TomlValue, ValueView};

verus! {

broadcast use {crate::lists::texts_len, crate::lists::texts_at};

/// How an app is treated once it leaves the foreground.
#[derive(Debug, Clone, Copy, PartialEq, Eq, Structural)]
pub enum AppMode {
    /// Never frozen.
    Exempt,
    /// Frozen late (twice the global delay), and always thawed by a wakeup.
    Important,
    /// Frozen after the global delay.
    Standard,
    /// Frozen after a short delay.
    Strict,
}

impl AppMode {
    pub open spec fn named(s: Seq<char>) -> Option<AppMode> {
        if s == "exempt"@ {
            Some(AppMode::Exempt)
        } else if s == "important"@ {
            Some(AppMode::Important)
        } else if s == "standard"@ {
            Some(AppMode::Standard)
        } else if s == "strict"@ {
            Some(AppMode::Strict)
        } else {
            None
        }
    }

    pub fn parse(s: &str) -> (r: Option<AppMode>)
        ensures
            r == AppMode::named(s@),
    {
        if str_eq(s, "exempt") {
            Some(AppMode::Exempt)
        } else if str_eq(s, "important") {
            Some(AppMode::Important)
        } else if str_eq(s, "standard") {
            Some(AppMode::Standard)
        } else if str_eq(s, "strict") {
            Some(AppMode::Strict)
        } else {
            None
        }
    }
}

impl Default for AppMode {
    fn default() -> (r: Self)
        ensures
            r == AppMode::Standard,
    {
        AppMode::Standard
    }
}

/// What happens to an app's push processes when it is frozen.
#[derive(Debug, Clone, Copy, PartialEq, Eq, Structural)]
pub enum PushMode {
    /// They keep running, so that messages still arrive.
    Keep,
    /// They are killed.
    Kill,
}

impl PushMode {
    pub open spec fn named(s: Seq<char>) -> Option<PushMode> {
        if s == "keep"@ {
            Some(PushMode::Keep)
        } else if s == "kill"@ {
            Some(PushMode::Kill)
        } else {
            None
        }
    }

    pub open spec fn name(self) -> Seq<char> {
        match self {
            PushMode::Keep => "keep"@,
            PushMode::Kill => "kill"@,
        }
    }

    pub fn parse(s: &str) -> (r: Option<PushMode>)
        ensures
            r == PushMode::named(s@),
    {
        if str_eq(s, "keep") {
            Some(PushMode::Keep)
        } else if str_eq(s, "kill") {
            Some(PushMode::Kill)
        } else {
            None
        }
    }

    pub fn as_str(&self) -> (r: &'static str)
        ensures
            r@ == self.name(),
    {
        match self {
            PushMode::Keep => "keep",
            PushMode::Kill => "kill",
        }
    }
}

/// The settings of one app; `None` follows the global setting.
#[derive(Debug, Clone, Copy)]
pub struct AppPolicy {
    pub mode: AppMode,
    /// Seconds in the background before the app is frozen.
    pub grace_override: Option<u64>,
    pub keep_fg_service: Option<bool>,
    pub keep_media: Option<bool>,
    pub keep_location: Option<bool>,
    pub keep_high_network: Option<bool>,
    pub keep_network: Option<bool>,
    /// Whether a wakeup thaws the app; `None` means that it does.
    pub keep_wakeup: Option<bool>,
    pub push_mode: Option<PushMode>,
    /// First and last minute of the day between which the app is not frozen.
    pub unfreeze_window: Option<(u32, u32)>,
}

pub open spec fn default_app() -> AppPolicy {
    AppPolicy {
        mode: AppMode::Standard,
        grace_override: None,
        keep_fg_service: None,
        keep_media: None,
        keep_location: None,
        keep_high_network: None,
        keep_network: None,
        keep_wakeup: None,
        push_mode: None,
        unfreeze_window: None,
    }
}

impl Default for AppPolicy {
    fn default() -> (r: Self)
        ensures
            r == default_app(),
    {
        AppPolicy {
            mode: AppMode::Standard,
            grace_override: None,
            keep_fg_service: None,
            keep_media: None,
            keep_location: None,
            keep_high_network: None,
            keep_network: None,
            keep_wakeup: None,
            push_mode: None,
            unfreeze_window: None,
        }
    }
}

/// `a * b`, or the largest 64-bit number where that is larger.
pub open spec fn saturating_product(a: u64, b: u64) -> u64 {
    if a * b > u64::MAX {
        u64::MAX
    } else {
        (a * b) as u64
    }
}

impl AppPolicy {
    /// The delay of a strict app, in seconds.
    pub const STRICT_DEFAULT_GRACE: u64 = 8;

    /// By how much the global delay is multiplied for an important app.
    pub const IMPORTANT_GRACE_MULT: u64 = 2;

    pub open spec fn grace(self, global: u64) -> u64 {
        match self.grace_override {
            Some(g) => g,
            None => match self.mode {
                AppMode::Strict => AppPolicy::STRICT_DEFAULT_GRACE,
                AppMode::Important => saturating_product(global, AppPolicy::IMPORTANT_GRACE_MULT),
                _ => global,
            },
        }
    }

    /// The delay in seconds that holds for this app.
    pub fn effective_grace(&self, global: u64) -> (r: u64)
        ensures
            r == self.grace(global),
    {
        match self.grace_override {
            Some(g) => g,
            None => match self.mode {
                AppMode::Strict => AppPolicy::STRICT_DEFAULT_GRACE,
                AppMode::Important => match global.checked_mul(AppPolicy::IMPORTANT_GRACE_MULT) {
                    Some(v) => v,
                    None => u64::MAX,
                },
                _ => global,
            },
        }
    }
}

/// Packages that are never frozen, whatever the configuration says: launchers, system
/// user interface, telephony, input methods, VPN consent, and the components that other
/// apps reach through implicit intents.
pub const CRITICAL_PACKAGES: [&'static str; 37] = [
    "com.android.launcher3",
    "com.android.launcher",
    "com.oplus.launcher",
    "com.coloros.launcher",
    "com.android.launcher2",
    "com.android.systemui",
    "com.android.settings",
    "com.android.phone",
    "com.android.shell",
    "com.android.permissioncontroller",
    "com.android.inputmethod.latin",
    "com.oplus.inputmethod",
    "com.baidu.input_oppo",
    "com.baidu.input",
    "com.sohu.inputmethod.sogou",
    "com.iflytek.inputmethod",
    "com.bytedance.android.doubaoime",
    "com.android.vpndialogs",
    "com.android.mms",
    "com.android.providers.media",
    "com.android.intentresolver",
    "com.android.credentialmanager",
    "com.android.packageinstaller",
    "com.android.documentsui",
    "com.android.printspooler",
    "com.android.contacts",
    "com.android.providers.contacts",
    "android.process.media",
    "com.android.providers.media.module",
    "com.coloros.gallery3d",
    "com.oplus.camera",
    "com.heytap.openid",
    "com.coloros.codebook",
    "com.android.deskclock",
    "com.coloros.alarmclock",
    "com.coloros.calendar",
    "com.android.calendar",
];

pub open spec fn critical(pkg: Seq<char>) -> bool {
    exists|i: int| 0 <= i < CRITICAL_PACKAGES@.len() && CRITICAL_PACKAGES@[i]@ == pkg
}

/// The policy in force.
#[derive(Debug)]
pub struct Policy {
    /// Off means that the daemon only observes.
    pub enabled: bool,
    pub grace_seconds: u64,
    /// Seconds after a thaw in which an app is not frozen again.
    pub cooldown_seconds: u64,
    /// Seconds after a wakeup thaw in which further wakeups do not thaw; 0 turns it off.
    pub wake_throttle_seconds: u64,
    /// Broadcast actions that may thaw a frozen app; empty lets all through.
    pub receiver_gate: Vec<String>,
    /// Apps that are frozen at once.
    pub force: Vec<String>,
    /// Apps that are never frozen.
    pub whitelist: Vec<String>,
    pub apps: NameMap<AppPolicy>,
    pub keep_fg_service: bool,
    pub keep_media: bool,
    pub keep_location: bool,
    pub keep_high_network: bool,
    pub keep_network: bool,
    pub push_policy: PushMode,
    pub keep_vpn: bool,
    pub vpn_packages: Vec<String>,
    pub defense_anr: bool,
    pub defense_cached_optimizer: bool,
    /// Seconds after which a frozen app is discarded; 0 turns it off.
    pub discard_frozen_timeout_seconds: u64,
    /// Available memory in MB below which frozen apps are discarded; 0 turns it off.
    pub discard_mem_watermark_mb: u64,
    pub discard_boot_reclaim: bool,
    pub discard_boot_reclaim_delay_seconds: u64,
    /// Modification time of the file, in seconds.
    pub revision: u64,
}

/// What a policy denotes.
pub struct PolicyView {
    pub enabled: bool,
    pub grace_seconds: u64,
    pub cooldown_seconds: u64,
    pub wake_throttle_seconds: u64,
    pub receiver_gate: Seq<Seq<char>>,
    pub force: Seq<Seq<char>>,
    pub whitelist: Seq<Seq<char>>,
    pub apps: Seq<(Seq<char>, AppPolicy)>,
    pub keep_fg_service: bool,
    pub keep_media: bool,
    pub keep_location: bool,
    pub keep_high_network: bool,
    pub keep_network: bool,
    pub push_policy: PushMode,
    pub keep_vpn: bool,
    pub vpn_packages: Seq<Seq<char>>,
    pub defense_anr: bool,
    pub defense_cached_optimizer: bool,
    pub discard_frozen_timeout_seconds: u64,
    pub discard_mem_watermark_mb: u64,
    pub discard_boot_reclaim: bool,
    pub discard_boot_reclaim_delay_seconds: u64,
    pub revision: u64,
}

impl View for Policy {
    type V = PolicyView;

    closed spec fn view(&self) -> PolicyView {
        PolicyView {
            enabled: self.enabled,
            grace_seconds: self.grace_seconds,
            cooldown_seconds: self.cooldown_seconds,
            wake_throttle_seconds: self.wake_throttle_seconds,
            receiver_gate: texts(self.receiver_gate@),
            force: texts(self.force@),
            whitelist: texts(self.whitelist@),
            apps: self.apps@,
            keep_fg_service: self.keep_fg_service,
            keep_media: self.keep_media,
            keep_location: self.keep_location,
            keep_high_network: self.keep_high_network,
            keep_network: self.keep_network,
            push_policy: self.push_policy,
            keep_vpn: self.keep_vpn,
            vpn_packages: texts(self.vpn_packages@),
            defense_anr: self.defense_anr,
            defense_cached_optimizer: self.defense_cached_optimizer,
            discard_frozen_timeout_seconds: self.discard_frozen_timeout_seconds,
            discard_mem_watermark_mb: self.discard_mem_watermark_mb,
            discard_boot_reclaim: self.discard_boot_reclaim,
            discard_boot_reclaim_delay_seconds: self.discard_boot_reclaim_delay_seconds,
            revision: self.revision,
        }
    }
}

/// The policy of an empty file: it only observes.
pub open spec fn default_policy() -> PolicyView {
    PolicyView {
        enabled: false,
        grace_seconds: 30,
        cooldown_seconds: 60,
        wake_throttle_seconds: 60,
        receiver_gate: Seq::empty(),
        force: Seq::empty(),
        whitelist: Seq::empty(),
        apps: Seq::empty(),
        keep_fg_service: true,
        keep_media: true,
        keep_location: true,
        keep_high_network: true,
        keep_network: true,
        push_policy: PushMode::Keep,
        keep_vpn: true,
        vpn_packages: Seq::empty(),
        defense_anr: false,
        defense_cached_optimizer: false,
        discard_frozen_timeout_seconds: 1800,
        discard_mem_watermark_mb: 512,
        discard_boot_reclaim: true,
        discard_boot_reclaim_delay_seconds: 120,
        revision: 0,
    }
}

impl Default for Policy {
    fn default() -> (r: Self)
        ensures
            r@ == default_policy(),
    {
        let r = Policy {
            enabled: false,
            grace_seconds: 30,
            cooldown_seconds: 60,
            wake_throttle_seconds: 60,
            receiver_gate: Vec::new(),
            force: Vec::new(),
            whitelist: Vec::new(),
            apps: NameMap::new(),
            keep_fg_service: true,
            keep_media: true,
            keep_location: true,
            keep_high_network: true,
            keep_network: true,
            push_policy: PushMode::Keep,
            keep_vpn: true,
            vpn_packages: Vec::new(),
            defense_anr: false,
            defense_cached_optimizer: false,
            discard_frozen_timeout_seconds: 1800,
            discard_mem_watermark_mb: 512,
            discard_boot_reclaim: true,
            discard_boot_reclaim_delay_seconds: 120,
            revision: 0,
        };
        assert(texts(r.receiver_gate@) =~= Seq::empty());
        r
    }
}

/// The boolean of a value, or `def` where it has another type.
pub open spec fn bool_view(v: ValueView, def: bool) -> bool {
    match v {
        ValueView::Bool(b) => b,
        _ => def,
    }
}

/// The integer of a value, or `def` where it has another type; negative numbers count as 0.
pub open spec fn count_view(v: ValueView, def: int) -> u64 {
    let n = match v {
        ValueView::Int(n) => n,
        _ => def,
    };
    if n < 0 {
        0
    } else {
        n as u64
    }
}

/// The strings of a value; none where it has another type.
pub open spec fn strings_view(v: ValueView) -> Seq<Seq<char>> {
    match v {
        ValueView::StrArray(a) => a,
        _ => Seq::empty(),
    }
}

/// The string of a value.
pub open spec fn string_view(v: ValueView) -> Option<Seq<char>> {
    match v {
        ValueView::Str(s) => Some(s),
        _ => None,
    }
}

pub fn bool_of(v: &TomlValue, def: bool) -> (r: bool)
    ensures
        r == bool_view(v@, def),
{
    match v {
        TomlValue::Bool(b) => *b,
        _ => def,
    }
}

pub fn count_of_value(v: &TomlValue, def: u64) -> (r: u64)
    ensures
        r == count_view(v@, def as int),
{
    match v {
        TomlValue::Int(n) => if *n < 0 {
            0
        } else {
            *n as u64
        },
        _ => def,
    }
}

pub fn strings_of(v: &TomlValue) -> (r: Vec<String>)
    ensures
        texts(r@) == strings_view(v@),
{
    let mut out: Vec<String> = Vec::new();
    assert(texts(out@) =~= Seq::empty());
    if let TomlValue::StrArray(items) = v {
        let mut i: usize = 0;
        while i < items.len()
            invariant
                i <= items.len(),
                texts(out@) == texts(items@).take(i as int),
            decreases items.len() - i,
        {
            let ghost done = texts(out@);
            out.push(items[i].clone());
            assert(texts(out@) =~= done.push(items@[i as int]@));
            assert(texts(out@) =~= texts(items@).take(i + 1));
            i = i + 1;
        }
        assert(texts(items@).take(items@.len() as int) =~= texts(items@));
    }
    out
}

pub fn string_of_value(v: &TomlValue) -> (r: Option<String>)
    ensures
        match r {
            Some(s) => string_view(v@) == Some(s@),
            None => string_view(v@) is None,
        },
{
    match v {
        TomlValue::Str(s) => Some(s.clone()),
        _ => None,
    }
}

/// The minute of the day that `HH:MM` names.
pub open spec fn minute_of(s: Seq<char>) -> Option<u32> {
    let p = crate::text::index_of(s, ':');
    if p >= s.len() {
        None
    } else {
        let h = crate::text::unsigned_of(crate::text::trimmed(s.take(p)), u32::MAX as int);
        let m = crate::text::unsigned_of(crate::text::trimmed(s.skip(p + 1)), u32::MAX as int);
        match (h, m) {
            (Some(h), Some(m)) => if h <= 23 && m <= 59 {
                Some((h * 60 + m) as u32)
            } else {
                None
            },
            _ => None,
        }
    }
}

/// The window that `HH:MM-HH:MM` names; it does not span midnight.
pub open spec fn window_of(s: Seq<char>) -> Option<(u32, u32)> {
    let p = crate::text::index_of(s, '-');
    if p >= s.len() {
        None
    } else {
        match (
            minute_of(crate::text::trimmed(s.take(p))),
            minute_of(crate::text::trimmed(s.skip(p + 1))),
        ) {
            (Some(a), Some(b)) => if a <= b {
                Some((a, b))
            } else {
                None
            },
            _ => None,
        }
    }
}

fn parse_hhmm(s: &[char]) -> (r: Option<u32>)
    ensures
        r == minute_of(s@),
{
    let p: usize = find(s, ':');
    if p >= s.len() {
        return None;
    }
    match (parse_u32(trim(head(s, p))), parse_u32(trim(tail(s, p + 1)))) {
        (Some(h), Some(m)) => if h <= 23 && m <= 59 {
            Some(h * 60 + m)
        } else {
            None
        },
        _ => None,
    }
}

/// Reads a window `HH:MM-HH:MM`.
pub fn parse_window(s: &str) -> (r: Option<(u32, u32)>)
    ensures
        r == window_of(s@),
{
    let v: Vec<char> = chars_of(s);
    let c: &[char] = v.as_slice();
    let p: usize = find(c, '-');
    if p >= c.len() {
        return None;
    }
    match (parse_hhmm(trim(head(c, p))), parse_hhmm(trim(tail(c, p + 1)))) {
        (Some(a), Some(b)) => if a <= b {
            Some((a, b))
        } else {
            None
        },
        _ => None,
    }
}

/// Every window that a text names lies within one day and does not end before it starts.
pub proof fn law_window_bounds(s: Seq<char>)
    ensures
        window_of(s) matches Some(w) ==> w.0 <= w.1 && w.1 <= 1439,
{
    let p = crate::text::index_of(s, '-');
    if p < s.len() {
        lemma_minute_bound(crate::text::trimmed(s.take(p)));
        lemma_minute_bound(crate::text::trimmed(s.skip(p + 1)));
    }
}

proof fn lemma_minute_bound(s: Seq<char>)
    ensures
        minute_of(s) matches Some(m) ==> m <= 1439,
{
    let p = crate::text::index_of(s, ':');
    let h = crate::text::trimmed(s.take(p));
    let m = crate::text::trimmed(s.skip(p + 1));
    crate::text::lemma_unsigned_bound(h, u32::MAX as int);
    crate::text::lemma_unsigned_bound(m, u32::MAX as int);
}

/// Whether the minute lies in the window, its ends included.
pub open spec fn within(minute: u32, window: Option<(u32, u32)>) -> bool {
    window matches Some(w) && w.0 <= minute <= w.1
}

pub fn in_window(minute: u32, window: Option<(u32, u32)>) -> (r: bool)
    ensures
        r == within(minute, window),
{
    match window {
        Some((s, e)) => minute >= s && minute <= e,
        None => false,
    }
}

impl Policy {
    /// The plain fields are what the view says.
    pub proof fn lemma_fields(&self)
        ensures
            self@.enabled == self.enabled,
            self@.grace_seconds == self.grace_seconds,
            self@.cooldown_seconds == self.cooldown_seconds,
            self@.wake_throttle_seconds == self.wake_throttle_seconds,
            self@.receiver_gate == texts(self.receiver_gate@),
            self@.force == texts(self.force@),
            self@.whitelist == texts(self.whitelist@),
            self@.keep_fg_service == self.keep_fg_service,
            self@.keep_media == self.keep_media,
            self@.keep_location == self.keep_location,
            self@.keep_high_network == self.keep_high_network,
            self@.keep_network == self.keep_network,
            self@.push_policy == self.push_policy,
            self@.keep_vpn == self.keep_vpn,
            self@.vpn_packages == texts(self.vpn_packages@),
            self@.defense_anr == self.defense_anr,
            self@.defense_cached_optimizer == self.defense_cached_optimizer,
            self@.discard_frozen_timeout_seconds == self.discard_frozen_timeout_seconds,
            self@.discard_mem_watermark_mb == self.discard_mem_watermark_mb,
            self@.discard_boot_reclaim == self.discard_boot_reclaim,
            self@.discard_boot_reclaim_delay_seconds == self.discard_boot_reclaim_delay_seconds,
            self@.revision == self.revision,
            self@.apps == self.apps@,
    {
    }

    pub(crate) fn set_enabled(&mut self, v: bool)
        ensures
            final(self)@ == (PolicyView { enabled: v, ..old(self)@ }),
    {
        self.enabled = v;
    }

    pub(crate) fn set_grace_seconds(&mut self, v: u64)
        ensures
            final(self)@ == (PolicyView { grace_seconds: v, ..old(self)@ }),
    {
        self.grace_seconds = v;
    }

    pub(crate) fn set_cooldown_seconds(&mut self, v: u64)
        ensures
            final(self)@ == (PolicyView { cooldown_seconds: v, ..old(self)@ }),
    {
        self.cooldown_seconds = v;
    }

    pub(crate) fn set_wake_throttle_seconds(&mut self, v: u64)
        ensures
            final(self)@ == (PolicyView { wake_throttle_seconds: v, ..old(self)@ }),
    {
        self.wake_throttle_seconds = v;
    }

    pub(crate) fn set_receiver_gate(&mut self, v: Vec<String>)
        ensures
            final(self)@ == (PolicyView { receiver_gate: texts(v@), ..old(self)@ }),
    {
        self.receiver_gate = v;
    }

    pub(crate) fn set_force(&mut self, v: Vec<String>)
        ensures
            final(self)@ == (PolicyView { force: texts(v@), ..old(self)@ }),
    {
        self.force = v;
    }

    pub(crate) fn set_whitelist(&mut self, v: Vec<String>)
        ensures
            final(self)@ == (PolicyView { whitelist: texts(v@), ..old(self)@ }),
    {
        self.whitelist = v;
    }

    pub(crate) fn set_keep_fg_service(&mut self, v: bool)
        ensures
            final(self)@ == (PolicyView { keep_fg_service: v, ..old(self)@ }),
    {
        self.keep_fg_service = v;
    }

    pub(crate) fn set_keep_media(&mut self, v: bool)
        ensures
            final(self)@ == (PolicyView { keep_media: v, ..old(self)@ }),
    {
        self.keep_media = v;
    }

    pub(crate) fn set_keep_location(&mut self, v: bool)
        ensures
            final(self)@ == (PolicyView { keep_location: v, ..old(self)@ }),
    {
        self.keep_location = v;
    }

    pub(crate) fn set_keep_high_network(&mut self, v: bool)
        ensures
            final(self)@ == (PolicyView { keep_high_network: v, ..old(self)@ }),
    {
        self.keep_high_network = v;
    }

    pub(crate) fn set_keep_network(&mut self, v: bool)
        ensures
            final(self)@ == (PolicyView { keep_network: v, ..old(self)@ }),
    {
        self.keep_network = v;
    }

    pub(crate) fn set_push_policy(&mut self, v: PushMode)
        ensures
            final(self)@ == (PolicyView { push_policy: v, ..old(self)@ }),
    {
        self.push_policy = v;
    }

    pub(crate) fn set_keep_vpn(&mut self, v: bool)
        ensures
            final(self)@ == (PolicyView { keep_vpn: v, ..old(self)@ }),
    {
        self.keep_vpn = v;
    }

    pub(crate) fn set_vpn_packages(&mut self, v: Vec<String>)
        ensures
            final(self)@ == (PolicyView { vpn_packages: texts(v@), ..old(self)@ }),
    {
        self.vpn_packages = v;
    }

    pub(crate) fn set_defense_anr(&mut self, v: bool)
        ensures
            final(self)@ == (PolicyView { defense_anr: v, ..old(self)@ }),
    {
        self.defense_anr = v;
    }

    pub(crate) fn set_defense_cached_optimizer(&mut self, v: bool)
        ensures
            final(self)@ == (PolicyView { defense_cached_optimizer: v, ..old(self)@ }),
    {
        self.defense_cached_optimizer = v;
    }

    pub(crate) fn set_discard_frozen_timeout_seconds(&mut self, v: u64)
        ensures
            final(self)@ == (PolicyView { discard_frozen_timeout_seconds: v, ..old(self)@ }),
    {
        self.discard_frozen_timeout_seconds = v;
    }

    pub(crate) fn set_discard_mem_watermark_mb(&mut self, v: u64)
        ensures
            final(self)@ == (PolicyView { discard_mem_watermark_mb: v, ..old(self)@ }),
    {
        self.discard_mem_watermark_mb = v;
    }

    pub(crate) fn set_discard_boot_reclaim(&mut self, v: bool)
        ensures
            final(self)@ == (PolicyView { discard_boot_reclaim: v, ..old(self)@ }),
    {
        self.discard_boot_reclaim = v;
    }

    pub(crate) fn set_discard_boot_reclaim_delay_seconds(&mut self, v: u64)
        ensures
            final(self)@ == (PolicyView { discard_boot_reclaim_delay_seconds: v, ..old(self)@ }),
    {
        self.discard_boot_reclaim_delay_seconds = v;
    }

    pub(crate) fn set_revision(&mut self, v: u64)
        ensures
            final(self)@ == (PolicyView { revision: v, ..old(self)@ }),
    {
        self.revision = v;
    }

    /// The settings of an app that has its own.
    pub fn app(&self, pkg: &str) -> (r: Option<AppPolicy>)
        ensures
            r == value_of(self@.apps, pkg@),
    {
        match self.apps.get(pkg) {
            Some(a) => Some(*a),
            None => None,
        }
    }

    pub(crate) fn set_app(&mut self, pkg: String, a: AppPolicy)
        ensures
            final(self)@ == (PolicyView { apps: with_key(old(self)@.apps, pkg@, a), ..old(self)@ }),
    {
        self.apps.insert(pkg, a);
    }

    pub fn is_whitelisted(&self, pkg: &str) -> (r: bool)
        ensures
            r == self@.whitelist.contains(pkg@),
    {
        contains_name(&self.whitelist, pkg)
    }

    /// Whether the package is on the built-in list; no configuration changes this.
    pub fn is_critical(&self, pkg: &str) -> (r: bool)
        ensures
            r == critical(pkg@),
    {
        let l = CRITICAL_PACKAGES;
        let mut i: usize = 0;
        while i < l.len()
            invariant
                i <= l.len(),
                l == CRITICAL_PACKAGES,
                forall|j: int| 0 <= j < i ==> CRITICAL_PACKAGES@[j]@ != pkg@,
            decreases l.len() - i,
        {
            if str_eq(l[i], pkg) {
                assert(CRITICAL_PACKAGES@[i as int]@ == pkg@);
                return true;
            }
            i = i + 1;
        }
        false
    }

    pub fn is_forced(&self, pkg: &str) -> (r: bool)
        ensures
            r == self@.force.contains(pkg@),
    {
        contains_name(&self.force, pkg)
    }

    pub fn is_vpn_listed(&self, pkg: &str) -> (r: bool)
        ensures
            r == self@.vpn_packages.contains(pkg@),
    {
        contains_name(&self.vpn_packages, pkg)
    }
}

} // verus!
