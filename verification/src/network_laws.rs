//! What the traffic counters come to.

use vstd::prelude::*;
use crate::network::{
    bpf_totals, bytes_step, needs_of, sample, usable_source, xt_bytes, xt_counts, xt_total,
    NetSource, ReadingView, SamplerView,
};
use crate::text::{dec, law_dec_reads_back, unsigned_of, words};

verus! {

// ---- Totals ----

/// All bytes, received and sent, of the entries that bear the uid.
pub open spec fn traffic(es: Seq<(u32, u64, u64)>, uid: u32) -> nat
    decreases es.len(),
{
    if es.len() == 0 {
        0
    } else {
        traffic(es.drop_last(), uid) + (if es.last().0 == uid {
            es.last().1 as nat + es.last().2 as nat
        } else {
            0
        })
    }
}

/// Whether an entry bears the uid.
pub open spec fn has_entry(es: Seq<(u32, u64, u64)>, uid: u32) -> bool {
    exists|i: int| 0 <= i < es.len() && (#[trigger] es[i]).0 == uid
}

/// A walk of the map counts for every uid all bytes that its entries say were received and sent,
/// up to the largest 64-bit number; a uid that no entry bears has no count.
pub proof fn law_bytes_received_and_sent(es: Seq<(u32, u64, u64)>, uid: u32)
    ensures
        bpf_totals(es).dom().contains(uid) <==> has_entry(es, uid),
        has_entry(es, uid) ==> bpf_totals(es)[uid] as int == (if traffic(es, uid) <= u64::MAX {
            traffic(es, uid) as int
        } else {
            u64::MAX as int
        }),
        !has_entry(es, uid) ==> traffic(es, uid) == 0,
    decreases es.len(),
{
    if es.len() > 0 {
        let d = es.drop_last();
        law_bytes_received_and_sent(d, uid);
        assert(has_entry(es, uid) <==> has_entry(d, uid) || es.last().0 == uid) by {
            if has_entry(d, uid) {
                let i = choose|i: int| 0 <= i < d.len() && (#[trigger] d[i]).0 == uid;
                assert(es[i].0 == uid);
            }
            assert(es[es.len() - 1] == es.last());
            if has_entry(es, uid) && es.last().0 != uid {
                let i = choose|i: int| 0 <= i < es.len() && (#[trigger] es[i]).0 == uid;
                assert(d[i].0 == uid);
            }
        }
    }
}

proof fn lemma_traffic_update(es: Seq<(u32, u64, u64)>, i: int, x: (u32, u64, u64), uid: u32)
    requires
        0 <= i < es.len(),
        x.0 == es[i].0,
    ensures
        traffic(es.update(i, x), uid) == traffic(es, uid) + (if es[i].0 == uid {
            x.1 + x.2 - es[i].1 - es[i].2
        } else {
            0
        }),
        has_entry(es.update(i, x), uid) == has_entry(es, uid),
    decreases es.len(),
{
    let u = es.update(i, x);
    if i < es.len() - 1 {
        lemma_traffic_update(es.drop_last(), i, x, uid);
        assert(u.drop_last() =~= es.drop_last().update(i, x));
    } else {
        assert(u.drop_last() =~= es.drop_last());
    }
    if has_entry(es, uid) {
        let j = choose|j: int| 0 <= j < es.len() && (#[trigger] es[j]).0 == uid;
        assert(u[j].0 == uid);
    }
    if has_entry(u, uid) {
        let j = choose|j: int| 0 <= j < u.len() && (#[trigger] u[j]).0 == uid;
        assert(es[j].0 == uid);
    }
}

/// Two walks that differ in one entry, by some more bytes received or sent, differ by as many
/// bytes for the uid of that entry, and for no other uid.
pub proof fn law_more_bytes_more_traffic(
    es: Seq<(u32, u64, u64)>,
    i: int,
    received: u64,
    sent: u64,
    other: u32,
)
    requires
        0 <= i < es.len(),
        es[i].1 + received <= u64::MAX,
        es[i].2 + sent <= u64::MAX,
        traffic(es, es[i].0) + received + sent <= u64::MAX,
    ensures
        ({
            let uid = es[i].0;
            let more = es.update(i, (uid, (es[i].1 + received) as u64, (es[i].2 + sent) as u64));
            &&& bpf_totals(more)[uid] == bpf_totals(es)[uid] + received + sent
            &&& other != uid ==> bpf_totals(more).dom().contains(other) == bpf_totals(
                es,
            ).dom().contains(other)
            &&& other != uid && bpf_totals(es).dom().contains(other) ==> bpf_totals(more)[other]
                == bpf_totals(es)[other]
        }),
{
    let uid = es[i].0;
    let x = (uid, (es[i].1 + received) as u64, (es[i].2 + sent) as u64);
    let more = es.update(i, x);
    lemma_traffic_update(es, i, x, uid);
    lemma_traffic_update(es, i, x, other);
    law_bytes_received_and_sent(es, uid);
    law_bytes_received_and_sent(es, other);
    law_bytes_received_and_sent(more, uid);
    law_bytes_received_and_sent(more, other);
    assert(es[i].0 == uid);
    assert(has_entry(es, uid));
}

/// All bytes of the rows that count for the uid and can be read.
pub open spec fn row_traffic(rows: Seq<Seq<char>>, uid: u32) -> int
    decreases rows.len(),
{
    if rows.len() == 0 {
        0
    } else {
        row_traffic(rows.drop_last(), uid) + (if xt_counts(rows.last(), uid) {
            match xt_bytes(rows.last()) {
                Some(b) => b.0 + b.1,
                None => 0,
            }
        } else {
            0
        })
    }
}

/// Whether a row counts for the uid.
pub open spec fn some_row_counts(rows: Seq<Seq<char>>, uid: u32) -> bool {
    exists|i: int| 0 <= i < rows.len() && xt_counts(#[trigger] rows[i], uid)
}

/// Whether a row that counts for the uid cannot be read.
pub open spec fn some_row_is_bad(rows: Seq<Seq<char>>, uid: u32) -> bool {
    exists|i: int|
        0 <= i < rows.len() && xt_counts(#[trigger] rows[i], uid) && xt_bytes(rows[i]) is None
}

/// The traffic-accounting table gives for a uid all bytes received and sent on the rows that
/// count for it, up to the largest 64-bit number; no number where no row counts, and none where
/// one that counts cannot be read.
pub proof fn law_rows_add_up(rows: Seq<Seq<char>>, uid: u32)
    ensures
        some_row_is_bad(rows, uid) <==> xt_total(rows, uid) is Err,
        !some_row_is_bad(rows, uid) && !some_row_counts(rows, uid) ==> xt_total(rows, uid) == Ok::<
            Option<u64>,
            (),
        >(None),
        !some_row_is_bad(rows, uid) && some_row_counts(rows, uid) ==> (xt_total(rows, uid) matches Ok(
            Some(t),
        ) && t as int == (if row_traffic(rows, uid) <= u64::MAX {
            row_traffic(rows, uid)
        } else {
            u64::MAX as int
        })),
        row_traffic(rows, uid) >= 0,
        !some_row_counts(rows, uid) ==> row_traffic(rows, uid) == 0,
    decreases rows.len(),
{
    if rows.len() > 0 {
        let d = rows.drop_last();
        law_rows_add_up(d, uid);
        let f = crate::text::words(rows.last());
        crate::text::lemma_unsigned_bound(f[5], u64::MAX as int);
        crate::text::lemma_unsigned_bound(f[7], u64::MAX as int);
        let last = rows.last();
        assert(rows[rows.len() - 1] == last);
        if some_row_counts(d, uid) {
            let i = choose|i: int| 0 <= i < d.len() && xt_counts(#[trigger] d[i], uid);
            assert(rows[i] == d[i]);
        }
        if some_row_is_bad(d, uid) {
            let i = choose|i: int|
                0 <= i < d.len() && xt_counts(#[trigger] d[i], uid) && xt_bytes(d[i]) is None;
            assert(rows[i] == d[i]);
        }
        if some_row_counts(rows, uid) && !xt_counts(last, uid) {
            let i = choose|i: int| 0 <= i < rows.len() && xt_counts(#[trigger] rows[i], uid);
            assert(d[i] == rows[i]);
        }
        if some_row_is_bad(rows, uid) && !(xt_counts(last, uid) && xt_bytes(last) is None) {
            let i = choose|i: int|
                0 <= i < rows.len() && xt_counts(#[trigger] rows[i], uid) && xt_bytes(rows[i]) is None;
            assert(d[i] == rows[i]);
        }
    }
}

// ---- Samples ----

/// The number of a source for a uid, as the readings have it; the map is walked again where the
/// last walk is 2 seconds old or older, and its last walk counts otherwise.
pub proof fn law_source_in_use_counts(v: SamplerView, uid: u32, r: ReadingView, now: u64)
    requires
        v.source is Some,
    ensures
        ({
            let (w, bytes) = bytes_step(v, uid, r, now);
            let old = v.bpf_at matches Some(t) ==> now - t >= 2_000_000_000;
            &&& w.source == v.source && w.last == v.last
            &&& v.source == Some(NetSource::UidStat) ==> bytes == r.uid_stat
            &&& v.source == Some(NetSource::XtQtaguid) ==> bytes == r.xt
            &&& v.source == Some(NetSource::Bpf) && !old ==> w == v && (bytes matches Some(b)
                ==> v.bpf.dom().contains(uid) && v.bpf[uid] == b) && (bytes is None
                ==> !v.bpf.dom().contains(uid))
            &&& v.source == Some(NetSource::Bpf) && old ==> match r.bpf {
                Some(es) => (bytes is Some <==> has_entry(es, uid)) && w.bpf_at == Some(now) && (
                has_entry(es, uid) && traffic(es, uid) <= u64::MAX ==> bytes->0 as nat == traffic(
                    es,
                    uid,
                )),
                None => w == v && bytes is None,
            }
        }),
{
    if let Some(es) = r.bpf {
        law_bytes_received_and_sent(es, uid);
    }
}

/// The first sample settles on a source: the first that has a number, in the order of the
/// files per uid, the accounting table and the map, or the files per uid where none has.
pub proof fn law_first_source_is_kept(v: SamplerView, uid: u32, r: ReadingView, now: u64)
    requires
        v.source is None,
        v.bpf_at is None,
    ensures
        ({
            let (w, bytes) = bytes_step(v, uid, r, now);
            let walked = r.bpf matches Some(es) && has_entry(es, uid);
            &&& r.uid_stat is Some ==> w.source == Some(NetSource::UidStat) && bytes == r.uid_stat
            &&& r.uid_stat is None && r.xt is Some ==> w.source == Some(NetSource::XtQtaguid)
                && bytes == r.xt
            &&& r.uid_stat is None && r.xt is None && walked ==> w.source == Some(NetSource::Bpf)
                && bytes is Some
            &&& r.uid_stat is None && r.xt is None && !walked ==> w.source == Some(
                NetSource::UidStat,
            ) && bytes is None
        }),
{
    if let Some(es) = r.bpf {
        law_bytes_received_and_sent(es, uid);
    }
}

/// A sample compares the number with the one of the last sample of the uid: the uid is active
/// exactly where that is old enough and the number has grown by the threshold or more, and
/// a number that fell counts as one that did not grow. Either way the number is remembered with
/// its time, and those of other uids stay.
pub proof fn law_sample_compares(
    v: SamplerView,
    uid: u32,
    window: u64,
    threshold: u64,
    r: ReadingView,
    now: u64,
    other: u32,
)
    ensures
        ({
            let (w, bytes) = bytes_step(v, uid, r, now);
            let (x, found) = sample(v, uid, window, threshold, r, now);
            &&& bytes is None ==> !found && x.last == v.last
            &&& bytes matches Some(b) ==> {
                &&& x.last.dom().contains(uid) && x.last[uid] == (b, now)
                &&& found <==> v.last.dom().contains(uid) && ({
                    let (before, at) = v.last[uid];
                    (window == 0 || now - at >= window) && (threshold == 0 || b - before
                        >= threshold)
                })
            }
            &&& other != uid ==> x.last.dom().contains(other) == v.last.dom().contains(other)
            &&& other != uid && v.last.dom().contains(other) ==> x.last[other] == v.last[other]
        }),
{
}

/// Only the source in use is read, and all three before one is in use; the map only where it was
/// never walked, or its last walk is 2 seconds old or older.
pub proof fn law_only_the_source_in_use_is_read(v: SamplerView, now: u64)
    ensures
        ({
            let n = needs_of(v, now);
            let old = v.bpf_at matches Some(t) ==> now - t >= 2_000_000_000;
            &&& v.source is None ==> n.uid_stat && n.xt && n.bpf == old
            &&& v.source == Some(NetSource::UidStat) ==> n.uid_stat && !n.xt && !n.bpf
            &&& v.source == Some(NetSource::XtQtaguid) ==> !n.uid_stat && n.xt && !n.bpf
            &&& v.source == Some(NetSource::Bpf) ==> !n.uid_stat && !n.xt && n.bpf == old
        }),
{
}

/// The source in use stays in use. Before there is one, the files per uid come first, then the
/// accounting table, then the map, each only where it has a number.
pub proof fn law_sources_are_tried_in_order(v: SamplerView, uid_stat: bool, xt: bool, bpf: bool)
    ensures
        ({
            let s = usable_source(v, uid_stat, xt, bpf);
            &&& v.source is Some ==> s == v.source
            &&& v.source is None ==> {
                &&& s == Some(NetSource::UidStat) <==> uid_stat
                &&& s == Some(NetSource::XtQtaguid) <==> xt && !uid_stat
                &&& s == Some(NetSource::Bpf) <==> bpf && !uid_stat && !xt
                &&& s is None <==> !uid_stat && !xt && !bpf
            }
        }),
{
}

/// A row counts for the uid that its fourth column reads as, and for no other, where it bears no
/// tag and has its eight columns.
pub proof fn law_whom_a_row_counts_for(row: Seq<char>, a: u32, b: u32)
    ensures
        xt_counts(row, a) && xt_counts(row, b) ==> a == b,
        xt_counts(row, a) ==> words(row).len() >= 8 && words(row)[2] == "0x0"@ && unsigned_of(
            words(row)[3],
            u32::MAX as int,
        ) == Some(a as int),
        words(row).len() >= 8 && words(row)[2] == "0x0"@ && words(row)[3] == dec(a as nat)
            ==> xt_counts(row, a),
{
    law_dec_reads_back(a as nat, u32::MAX as int);
    law_dec_reads_back(b as nat, u32::MAX as int);
}

} // verus!
