//! Network load per uid, from the byte counters of the kernel.
//!
//! There are three sources, tried in order: the per-uid files of the old accounting layer,
//! the table of the traffic-accounting module, and the eBPF map of the network daemon. The
//! first that gives a number is used from then on. A reading that is missing counts as no
//! traffic: freezing wins over exemption.

use std::collections::HashMap;
use vstd::prelude::*;
use crate::bytes::{wide, wide_at, word, word_at};
use crate::lists::slice_texts;
use crate::text::{chars_of, dec, lines, parse_unsigned, push_dec, same, split_words, trim};

verus! {

broadcast use {crate::lists::group_texts, vstd::std_specs::hash::group_hash_axioms};

/// Bytes within the window from which on a uid is under high load.
pub const DEFAULT_THRESHOLD: u64 = 262144;

/// The window in nanoseconds.
pub const DEFAULT_WINDOW: u64 = 30_000_000_000;

/// How long a walk over the eBPF map stays valid, in nanoseconds.
pub const BPF_CACHE_TTL: u64 = 2_000_000_000;

/// Where the byte counts come from.
#[derive(Debug, Clone, Copy, PartialEq, Eq, Structural)]
pub enum NetSource {
    UidStat,
    XtQtaguid,
    Bpf,
}

impl NetSource {
    pub open spec fn name(self) -> Seq<char> {
        match self {
            NetSource::UidStat => "uid_stat"@,
            NetSource::XtQtaguid => "xt_qtaguid"@,
            NetSource::Bpf => "bpf"@,
        }
    }

    pub fn as_str(&self) -> (r: &'static str)
        ensures
            r@ == self.name(),
    {
        match self {
            NetSource::UidStat => "uid_stat",
            NetSource::XtQtaguid => "xt_qtaguid",
            NetSource::Bpf => "bpf",
        }
    }
}

/// One reading of the counters of a uid.
#[derive(Debug)]
pub struct NetReading {
    /// Bytes by the per-uid files.
    pub uid_stat: Option<u64>,
    /// Bytes by the traffic-accounting table.
    pub xt: Option<u64>,
    /// Uid, received and sent bytes of every entry of the eBPF map.
    pub bpf: Option<Vec<(u32, u64, u64)>>,
}

/// What a reading denotes.
pub struct ReadingView {
    pub uid_stat: Option<u64>,
    pub xt: Option<u64>,
    pub bpf: Option<Seq<(u32, u64, u64)>>,
}

impl View for NetReading {
    type V = ReadingView;

    open spec fn view(&self) -> ReadingView {
        ReadingView {
            uid_stat: self.uid_stat,
            xt: self.xt,
            bpf: match self.bpf {
                Some(v) => Some(v@),
                None => None,
            },
        }
    }
}

impl NetReading {
    /// Nothing could be read.
    pub fn none() -> (r: Self)
        ensures
            r@ == (ReadingView { uid_stat: None, xt: None, bpf: None }),
    {
        NetReading { uid_stat: None, xt: None, bpf: None }
    }
}

/// The sampler: what was last seen of every uid, and the source in use.
#[derive(Debug)]
pub struct NetSampler {
    /// Bytes and time of the last sample.
    pub last: HashMap<u32, (u64, u64)>,
    /// The source in use; none before the first sample.
    pub source: Option<NetSource>,
    pub bpf_cache: HashMap<u32, u64>,
    /// When the eBPF map was last walked.
    pub bpf_last_refresh: Option<u64>,
}

/// What a sampler denotes.
pub struct SamplerView {
    pub last: Map<u32, (u64, u64)>,
    pub source: Option<NetSource>,
    pub bpf: Map<u32, u64>,
    pub bpf_at: Option<u64>,
}

impl View for NetSampler {
    type V = SamplerView;

    closed spec fn view(&self) -> SamplerView {
        SamplerView {
            last: self.last@,
            source: self.source,
            bpf: self.bpf_cache@,
            bpf_at: self.bpf_last_refresh,
        }
    }
}

pub open spec fn empty_sampler() -> SamplerView {
    SamplerView { last: Map::empty(), source: None, bpf: Map::empty(), bpf_at: None }
}

/// By how much `now` exceeds `at`; 0 where it does not.
pub open spec fn elapsed(now: u64, at: u64) -> int {
    if now >= at {
        now - at
    } else {
        0
    }
}

pub fn time_since(now: u64, at: u64) -> (r: u64)
    ensures
        r == elapsed(now, at),
{
    if now >= at {
        now - at
    } else {
        0
    }
}

/// The sum, or the largest 64-bit number where it is larger.
pub open spec fn capped_sum(a: u64, b: u64) -> u64 {
    if a + b > u64::MAX {
        u64::MAX
    } else {
        (a + b) as u64
    }
}

/// Bytes per uid over the entries of the eBPF map; sums are capped.
pub open spec fn bpf_totals(es: Seq<(u32, u64, u64)>) -> Map<u32, u64>
    decreases es.len(),
{
    if es.len() == 0 {
        Map::empty()
    } else {
        let m = bpf_totals(es.drop_last());
        let (uid, rx, tx) = es.last();
        let before = if m.dom().contains(uid) {
            m[uid]
        } else {
            0
        };
        m.insert(uid, capped_sum(capped_sum(before, rx), tx))
    }
}

/// Whether the eBPF map has to be walked again.
pub open spec fn bpf_stale(v: SamplerView, now: u64) -> bool {
    match v.bpf_at {
        Some(t) => elapsed(now, t) >= BPF_CACHE_TTL,
        None => true,
    }
}

pub open spec fn map_value(m: Map<u32, u64>, k: u32) -> Option<u64> {
    if m.dom().contains(k) {
        Some(m[k])
    } else {
        None
    }
}

/// The bytes of a uid by the eBPF map, which is walked again where the last walk is too old.
pub open spec fn bpf_step(v: SamplerView, uid: u32, r: ReadingView, now: u64) -> (
    SamplerView,
    Option<u64>,
) {
    if bpf_stale(v, now) {
        match r.bpf {
            Some(es) => {
                let m = bpf_totals(es);
                (SamplerView { bpf: m, bpf_at: Some(now), ..v }, map_value(m, uid))
            },
            None => (v, None),
        }
    } else {
        (v, map_value(v.bpf, uid))
    }
}

/// The bytes of a uid by the source in use. Before there is one, the sources are tried in
/// order; where none gives a number, the first one is taken.
pub open spec fn bytes_step(v: SamplerView, uid: u32, r: ReadingView, now: u64) -> (
    SamplerView,
    Option<u64>,
) {
    match v.source {
        Some(NetSource::UidStat) => (v, r.uid_stat),
        Some(NetSource::XtQtaguid) => (v, r.xt),
        Some(NetSource::Bpf) => bpf_step(v, uid, r, now),
        None => if r.uid_stat is Some {
            (SamplerView { source: Some(NetSource::UidStat), ..v }, r.uid_stat)
        } else if r.xt is Some {
            (SamplerView { source: Some(NetSource::XtQtaguid), ..v }, r.xt)
        } else {
            let (w, b) = bpf_step(v, uid, r, now);
            if b is Some {
                (SamplerView { source: Some(NetSource::Bpf), ..w }, b)
            } else {
                (SamplerView { source: Some(NetSource::UidStat), ..w }, None)
            }
        },
    }
}

/// The bytes that a uid moved since a sample that is at least `window` old, and what the
/// sampler remembers. The first sample of a uid, and one without a reading, find nothing.
pub open spec fn moved_bytes(
    v: SamplerView,
    uid: u32,
    window: u64,
    r: ReadingView,
    now: u64,
) -> (SamplerView, Option<u64>) {
    let (w, bytes) = bytes_step(v, uid, r, now);
    match bytes {
        None => (w, None),
        Some(b) => (
            SamplerView { last: w.last.insert(uid, (b, now)), ..w },
            if w.last.dom().contains(uid) && elapsed(now, w.last[uid].1) >= window {
                Some(elapsed(b, w.last[uid].0) as u64)
            } else {
                None
            },
        ),
    }
}

/// What a sample finds, and what the sampler remembers of it. A uid is active where it moved
/// at least `threshold` bytes since a sample that is at least `window` old.
pub open spec fn sample(
    v: SamplerView,
    uid: u32,
    window: u64,
    threshold: u64,
    r: ReadingView,
    now: u64,
) -> (SamplerView, bool) {
    let (w, moved) = moved_bytes(v, uid, window, r, now);
    (w, match moved {
        Some(bytes) => bytes >= threshold,
        None => false,
    })
}

/// Which readings a sample would look at.
#[derive(Debug, Clone, Copy)]
pub struct NetNeeds {
    pub uid_stat: bool,
    pub xt: bool,
    pub bpf: bool,
}

pub open spec fn needs_of(v: SamplerView, now: u64) -> NetNeeds {
    NetNeeds {
        uid_stat: v.source is None || v.source == Some(NetSource::UidStat),
        xt: v.source is None || v.source == Some(NetSource::XtQtaguid),
        bpf: (v.source is None || v.source == Some(NetSource::Bpf)) && bpf_stale(v, now),
    }
}

/// The source that is in use, or where there is none yet, the first that can be read.
pub open spec fn usable_source(v: SamplerView, uid_stat: bool, xt: bool, bpf: bool) -> Option<
    NetSource,
> {
    if v.source is Some {
        v.source
    } else if uid_stat {
        Some(NetSource::UidStat)
    } else if xt {
        Some(NetSource::XtQtaguid)
    } else if bpf {
        Some(NetSource::Bpf)
    } else {
        None
    }
}

/// Looking for a source tells the one that a first sample would settle on, where that finds a
/// number.
pub proof fn law_probe_tells_the_source(uid: u32, r: ReadingView, now: u64)
    ensures
        ({
            let v = empty_sampler();
            let (w, bytes) = bytes_step(v, uid, r, now);
            bytes is Some ==> w.source == usable_source(
                v,
                r.uid_stat is Some,
                r.xt is Some,
                r.bpf is Some,
            )
        }),
{
}

/// A reading that a sample does not need has no influence on what it finds.
pub proof fn law_needs_suffice(
    v: SamplerView,
    uid: u32,
    window: u64,
    threshold: u64,
    a: ReadingView,
    b: ReadingView,
    now: u64,
)
    requires
        needs_of(v, now).uid_stat ==> a.uid_stat == b.uid_stat,
        needs_of(v, now).xt ==> a.xt == b.xt,
        needs_of(v, now).bpf ==> a.bpf == b.bpf,
    ensures
        sample(v, uid, window, threshold, a, now) == sample(v, uid, window, threshold, b, now),
{
}

/// The first sample of a uid only sets its base line.
pub proof fn law_first_sample_inactive(
    v: SamplerView,
    uid: u32,
    window: u64,
    threshold: u64,
    r: ReadingView,
    now: u64,
)
    requires
        !v.last.dom().contains(uid),
    ensures
        !sample(v, uid, window, threshold, r, now).1,
{
}

/// Without any reading nothing is active.
pub proof fn law_no_reading_inactive(
    v: SamplerView,
    uid: u32,
    window: u64,
    threshold: u64,
    r: ReadingView,
    now: u64,
)
    requires
        r.uid_stat is None,
        r.xt is None,
        v.source != Some(NetSource::Bpf),
        bpf_stale(v, now),
        r.bpf is None,
    ensures
        !sample(v, uid, window, threshold, r, now).1,
        sample(v, uid, window, threshold, r, now).0.source is Some,
        sample(v, uid, window, threshold, r, now).0.last == v.last,
{
}

fn capped(a: u64, b: u64) -> (r: u64)
    ensures
        r == capped_sum(a, b),
{
    match a.checked_add(b) {
        Some(v) => v,
        None => u64::MAX,
    }
}

fn sum_bpf(es: &Vec<(u32, u64, u64)>) -> (r: HashMap<u32, u64>)
    ensures
        r@ == bpf_totals(es@),
{
    let mut m: HashMap<u32, u64> = HashMap::new();
    let mut i: usize = 0;
    assert(m@ =~= bpf_totals(es@.take(0)));
    while i < es.len()
        invariant
            i <= es.len(),
            m@ == bpf_totals(es@.take(i as int)),
        decreases es.len() - i,
    {
        let (uid, rx, tx) = es[i];
        let before: u64 = match m.get(&uid) {
            Some(b) => *b,
            None => 0,
        };
        m.insert(uid, capped(capped(before, rx), tx));
        assert(es@.take(i + 1).drop_last() =~= es@.take(i as int));
        i = i + 1;
    }
    assert(es@.take(es@.len() as int) =~= es@);
    m
}

impl NetSampler {
    pub fn new() -> (r: Self)
        ensures
            r@ == empty_sampler(),
    {
        NetSampler {
            last: HashMap::new(),
            source: None,
            bpf_cache: HashMap::new(),
            bpf_last_refresh: None,
        }
    }

    /// Looks for a source, given which ones can be read. Nothing is settled by it.
    pub fn probe_source(&self, uid_stat: bool, xt: bool, bpf: bool) -> (r: Option<NetSource>)
        ensures
            r == usable_source(self@, uid_stat, xt, bpf),
    {
        if self.source.is_some() {
            self.source
        } else if uid_stat {
            Some(NetSource::UidStat)
        } else if xt {
            Some(NetSource::XtQtaguid)
        } else if bpf {
            Some(NetSource::Bpf)
        } else {
            None
        }
    }

    /// Which readings the next sample would look at.
    pub fn needs(&self, now: u64) -> (r: NetNeeds)
        ensures
            r == needs_of(self@, now),
    {
        let stale: bool = match self.bpf_last_refresh {
            Some(t) => time_since(now, t) >= BPF_CACHE_TTL,
            None => true,
        };
        match self.source {
            Some(NetSource::UidStat) => NetNeeds { uid_stat: true, xt: false, bpf: false },
            Some(NetSource::XtQtaguid) => NetNeeds { uid_stat: false, xt: true, bpf: false },
            Some(NetSource::Bpf) => NetNeeds { uid_stat: false, xt: false, bpf: stale },
            None => NetNeeds { uid_stat: true, xt: true, bpf: stale },
        }
    }

    fn bpf_uid_bytes(&mut self, uid: u32, reading: &NetReading, now: u64) -> (r: Option<u64>)
        ensures
            (final(self)@, r) == bpf_step(old(self)@, uid, reading@, now),
    {
        let stale: bool = match self.bpf_last_refresh {
            Some(t) => time_since(now, t) >= BPF_CACHE_TTL,
            None => true,
        };
        if stale {
            match &reading.bpf {
                Some(es) => {
                    self.bpf_cache = sum_bpf(es);
                    self.bpf_last_refresh = Some(now);
                },
                None => {
                    return None;
                },
            }
        }
        match self.bpf_cache.get(&uid) {
            Some(b) => Some(*b),
            None => None,
        }
    }

    fn uid_bytes(&mut self, uid: u32, reading: &NetReading, now: u64) -> (r: Option<u64>)
        ensures
            (final(self)@, r) == bytes_step(old(self)@, uid, reading@, now),
    {
        match self.source {
            Some(NetSource::UidStat) => reading.uid_stat,
            Some(NetSource::XtQtaguid) => reading.xt,
            Some(NetSource::Bpf) => self.bpf_uid_bytes(uid, reading, now),
            None => {
                if reading.uid_stat.is_some() {
                    self.source = Some(NetSource::UidStat);
                    return reading.uid_stat;
                }
                if reading.xt.is_some() {
                    self.source = Some(NetSource::XtQtaguid);
                    return reading.xt;
                }
                let b: Option<u64> = self.bpf_uid_bytes(uid, reading, now);
                if b.is_some() {
                    self.source = Some(NetSource::Bpf);
                    return b;
                }
                self.source = Some(NetSource::UidStat);
                None
            },
        }
    }

    /// Samples a uid: the bytes that it moved since the sample before, where there is one and
    /// it is at least `window` old. `window` and `now` are in nanoseconds.
    pub fn moved(&mut self, uid: u32, window: u64, reading: &NetReading, now: u64) -> (r: Option<
        u64,
    >)
        ensures
            (final(self)@, r) == moved_bytes(old(self)@, uid, window, reading@, now),
    {
        match self.uid_bytes(uid, reading, now) {
            None => None,
            Some(bytes) => {
                let moved: Option<u64> = match self.last.get(&uid) {
                    Some(p) => if time_since(now, p.1) >= window {
                        Some(time_since(bytes, p.0))
                    } else {
                        None
                    },
                    None => None,
                };
                self.last.insert(uid, (bytes, now));
                moved
            },
        }
    }

    /// Samples a uid: whether it is under high load. `window` and `now` are in nanoseconds.
    pub fn is_active(
        &mut self,
        uid: u32,
        window: u64,
        threshold: u64,
        reading: &NetReading,
        now: u64,
    ) -> (r: bool)
        ensures
            (final(self)@, r) == sample(old(self)@, uid, window, threshold, reading@, now),
    {
        match self.moved(uid, window, reading, now) {
            Some(bytes) => bytes >= threshold,
            None => false,
        }
    }

    /// Samples a uid: whether it moved any byte at all.
    pub fn is_active_any(&mut self, uid: u32, window: u64, reading: &NetReading, now: u64) -> (r:
        bool)
        ensures
            (final(self)@, r) == sample(old(self)@, uid, window, 1, reading@, now),
    {
        self.is_active(uid, window, 1, reading, now)
    }
}

/// The number in a file that holds one number.
pub fn read_u64(text: &str) -> (r: Option<u64>)
    ensures
        match r {
            Some(v) => crate::text::unsigned_of(crate::text::trimmed(text@), u64::MAX as int)
                == Some(v as int),
            None => crate::text::unsigned_of(crate::text::trimmed(text@), u64::MAX as int) is None,
        },
{
    let v: Vec<char> = chars_of(text);
    parse_unsigned(trim(v.as_slice()), u64::MAX)
}

/// Received plus sent bytes. A side that is missing counts as nothing; where both are
/// missing there is no number.
pub fn uid_stat_bytes(rcv: Option<u64>, snd: Option<u64>) -> (r: Option<u64>)
    ensures
        r == match (rcv, snd) {
            (Some(a), Some(b)) => Some(capped_sum(a, b)),
            (Some(a), None) => Some(a),
            (None, b) => b,
        },
{
    match (rcv, snd) {
        (Some(a), Some(b)) => Some(capped(a, b)),
        (Some(a), None) => Some(a),
        (None, b) => b,
    }
}

/// Whether a row of the traffic-accounting table counts for a uid: it has the columns up to
/// the sent bytes, bears the uid, and its traffic is not tagged.
pub open spec fn xt_counts(row: Seq<char>, uid: u32) -> bool {
    let f = crate::text::words(row);
    f.len() >= 8 && f[3] == dec(uid as nat) && f[2] == "0x0"@
}

/// The received and sent bytes of a row.
pub open spec fn xt_bytes(row: Seq<char>) -> Option<(int, int)> {
    let f = crate::text::words(row);
    match (
        crate::text::unsigned_of(f[5], u64::MAX as int),
        crate::text::unsigned_of(f[7], u64::MAX as int),
    ) {
        (Some(rx), Some(tx)) => Some((rx, tx)),
        _ => None,
    }
}

/// The bytes of a uid over the rows; none where a row that counts cannot be read, or where
/// no row counts.
pub open spec fn xt_total(rows: Seq<Seq<char>>, uid: u32) -> Result<Option<u64>, ()>
    decreases rows.len(),
{
    if rows.len() == 0 {
        Ok(None)
    } else {
        match xt_total(rows.drop_last(), uid) {
            Err(_) => Err(()),
            Ok(t) => if !xt_counts(rows.last(), uid) {
                Ok(t)
            } else {
                match xt_bytes(rows.last()) {
                    Some(b) => {
                        let before = match t {
                            Some(n) => n,
                            None => 0,
                        };
                        Ok(Some(capped_sum(capped_sum(before, b.0 as u64), b.1 as u64)))
                    },
                    None => Err(()),
                }
            },
        }
    }
}

/// One bad row spoils the rows after it.
proof fn lemma_xt_error(rows: Seq<Seq<char>>, uid: u32, n: int)
    requires
        0 <= n <= rows.len(),
        xt_total(rows.take(n), uid) is Err,
    ensures
        xt_total(rows, uid) is Err,
    decreases rows.len() - n,
{
    if n < rows.len() {
        assert(rows.take(n + 1).drop_last() =~= rows.take(n));
        lemma_xt_error(rows, uid, n + 1);
    } else {
        assert(rows.take(n) =~= rows);
    }
}

/// The bytes of a uid by the text of the traffic-accounting table.
pub fn xt_qtaguid_bytes(text: Option<&str>, uid: u32) -> (r: Option<u64>)
    ensures
        r == match text {
            Some(s) => match xt_total(crate::text::line_texts(s@), uid) {
                Ok(t) => t,
                Err(_) => None,
            },
            None => None,
        },
{
    let s: &str = match text {
        Some(s) => s,
        None => {
            return None;
        },
    };
    let mut id: String = String::new();
    push_dec(&mut id, uid as u64);
    assert(id@ =~= dec(uid as nat));
    let v: Vec<char> = chars_of(s);
    let rows: Vec<&[char]> = lines(v.as_slice());
    let ghost all = slice_texts(rows@);
    let mut total: u64 = 0;
    let mut found: bool = false;
    let mut i: usize = 0;
    while i < rows.len()
        invariant
            i <= rows.len(),
            all == slice_texts(rows@),
            all == crate::text::line_texts(s@),
            text == Some(s),
            id@ == dec(uid as nat),
            xt_total(all.take(i as int), uid) == Ok::<Option<u64>, ()>(
                if found {
                    Some(total)
                } else {
                    None
                },
            ),
            !found ==> total == 0,
        decreases rows.len() - i,
    {
        assert(all.take(i + 1).drop_last() =~= all.take(i as int));
        let f: Vec<&[char]> = split_words(rows[i]);
        let ghost w = slice_texts(f@);
        if f.len() >= 8 && same(f[3], id.as_str()) && same(f[2], "0x0") {
            assert(w[3] == dec(uid as nat));
            match (parse_unsigned(f[5], u64::MAX), parse_unsigned(f[7], u64::MAX)) {
                (Some(rx), Some(tx)) => {
                    total = capped(capped(total, rx), tx);
                    found = true;
                },
                _ => {
                    proof {
                        lemma_xt_error(all, uid, i + 1);
                    }
                    return None;
                },
            }
        }
        i = i + 1;
    }
    assert(all.take(all.len() as int) =~= all);
    if found {
        Some(total)
    } else {
        None
    }
}

/// Whether the entries of an eBPF map with these sizes hold a uid and both byte counters.
pub fn bpf_layout_ok(key_size: u32, value_size: u32) -> (r: bool)
    ensures
        r == (0 < key_size <= 64 && value_size >= 24),
{
    key_size > 0 && key_size <= 64 && value_size >= 24
}

/// The uid, the received and the sent bytes of an entry of the map: the uid stands first in
/// the key, the counters at the start of the value and behind 16 bytes.
pub open spec fn entry_of(key: Seq<u8>, value: Seq<u8>) -> Option<(int, int, int)> {
    if key.len() >= 4 && value.len() >= 24 {
        Some((word(key, 0), wide(value, 0), wide(value, 16)))
    } else {
        None
    }
}

/// Reads an entry of the map.
pub fn bpf_entry(key: &[u8], value: &[u8]) -> (r: Option<(u32, u64, u64)>)
    ensures
        match r {
            Some((uid, rx, tx)) => entry_of(key@, value@) == Some((uid as int, rx as int, tx as int)),
            None => entry_of(key@, value@) is None,
        },
{
    if key.len() >= 4 && value.len() >= 24 {
        Some((word_at(key, 0), wide_at(value, 0), wide_at(value, 16)))
    } else {
        None
    }
}

} // verus!
