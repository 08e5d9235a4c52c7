//! The words of the reports and files, and small readings of the device.

use vstd::prelude::*;
use crate::bytes::{until_zero, wide, word};
use crate::capability::FreezerLevel;
use crate::config::{changes, holds_settings};
use crate::engine_ops::DiscardReason;
use crate::engine_rules::{mem_available, resident_kb};
use crate::events::{old_log_name, EvAction, EvLevel, EvSubject};
use crate::freezer::VpnCache;
use crate::json::{number_list, opt_quoted, quoted, string_array};
use crate::policy::PushMode;
use crate::session::{candidate_line, frozen_line, SyncView};
use crate::text::{dec, joined, unsigned_of, words};

verus! {

/// Every level, action and subject of an event has a word of its own, and that word tells it.
pub proof fn law_words_of_events(l: EvLevel, a: EvAction, s: EvSubject)
    ensures
        l == EvLevel::Info <==> l.name() == "info"@,
        l == EvLevel::Event <==> l.name() == "event"@,
        l == EvLevel::Success <==> l.name() == "success"@,
        l == EvLevel::Warn <==> l.name() == "warn"@,
        l == EvLevel::Error <==> l.name() == "error"@,
        l == EvLevel::Timer <==> l.name() == "timer"@,
        l == EvLevel::Report <==> l.name() == "report"@,
        a == EvAction::Open <==> a.name() == "open"@,
        a == EvAction::Close <==> a.name() == "close"@,
        a == EvAction::Freeze <==> a.name() == "freeze"@,
        a == EvAction::Unfreeze <==> a.name() == "unfreeze"@,
        a == EvAction::Delay <==> a.name() == "delay"@,
        a == EvAction::Exempt <==> a.name() == "exempt"@,
        a == EvAction::Discard <==> a.name() == "discard"@,
        a == EvAction::Policy <==> a.name() == "policy"@,
        a == EvAction::System <==> a.name() == "system"@,
        s == EvSubject::App <==> s.name() == "app"@,
        s == EvSubject::System <==> s.name() == "system"@,
{
    reveal_strlit("app");
    reveal_strlit("close");
    reveal_strlit("delay");
    reveal_strlit("discard");
    reveal_strlit("error");
    reveal_strlit("event");
    reveal_strlit("exempt");
    reveal_strlit("freeze");
    reveal_strlit("info");
    reveal_strlit("open");
    reveal_strlit("policy");
    reveal_strlit("report");
    reveal_strlit("success");
    reveal_strlit("system");
    reveal_strlit("timer");
    reveal_strlit("unfreeze");
    reveal_strlit("warn");
    assert("app"@.len() == 3);
    assert("close"@.len() == 5);
    assert("delay"@.len() == 5);
    assert("discard"@.len() == 7);
    assert("error"@.len() == 5);
    assert("event"@.len() == 5);
    assert("exempt"@.len() == 6);
    assert("freeze"@.len() == 6);
    assert("info"@.len() == 4);
    assert("open"@.len() == 4);
    assert("policy"@.len() == 6);
    assert("report"@.len() == 6);
    assert("success"@.len() == 7);
    assert("system"@.len() == 6);
    assert("timer"@.len() == 5);
    assert("unfreeze"@.len() == 8);
    assert("warn"@.len() == 4);
    assert("info"@ != "event"@);
    assert("info"@ != "success"@);
    assert("event"@ != "success"@);
    assert("info"@[0] != "warn"@[0]);
    assert("info"@ != "warn"@);
    assert("event"@ != "warn"@);
    assert("success"@ != "warn"@);
    assert("info"@ != "error"@);
    assert("event"@[1] != "error"@[1]);
    assert("event"@ != "error"@);
    assert("success"@ != "error"@);
    assert("warn"@ != "error"@);
    assert("info"@ != "timer"@);
    assert("event"@[0] != "timer"@[0]);
    assert("event"@ != "timer"@);
    assert("success"@ != "timer"@);
    assert("warn"@ != "timer"@);
    assert("error"@[0] != "timer"@[0]);
    assert("error"@ != "timer"@);
    assert("info"@ != "report"@);
    assert("event"@ != "report"@);
    assert("success"@ != "report"@);
    assert("warn"@ != "report"@);
    assert("error"@ != "report"@);
    assert("timer"@ != "report"@);
    assert("open"@ != "close"@);
    assert("open"@ != "freeze"@);
    assert("close"@ != "freeze"@);
    assert("open"@ != "unfreeze"@);
    assert("close"@ != "unfreeze"@);
    assert("freeze"@ != "unfreeze"@);
    assert("open"@ != "delay"@);
    assert("close"@[0] != "delay"@[0]);
    assert("close"@ != "delay"@);
    assert("freeze"@ != "delay"@);
    assert("unfreeze"@ != "delay"@);
    assert("open"@ != "exempt"@);
    assert("close"@ != "exempt"@);
    assert("freeze"@[0] != "exempt"@[0]);
    assert("freeze"@ != "exempt"@);
    assert("unfreeze"@ != "exempt"@);
    assert("delay"@ != "exempt"@);
    assert("open"@ != "discard"@);
    assert("close"@ != "discard"@);
    assert("freeze"@ != "discard"@);
    assert("unfreeze"@ != "discard"@);
    assert("delay"@ != "discard"@);
    assert("exempt"@ != "discard"@);
    assert("open"@ != "policy"@);
    assert("close"@ != "policy"@);
    assert("freeze"@[0] != "policy"@[0]);
    assert("freeze"@ != "policy"@);
    assert("unfreeze"@ != "policy"@);
    assert("delay"@ != "policy"@);
    assert("exempt"@[0] != "policy"@[0]);
    assert("exempt"@ != "policy"@);
    assert("discard"@ != "policy"@);
    assert("open"@ != "system"@);
    assert("close"@ != "system"@);
    assert("freeze"@[0] != "system"@[0]);
    assert("freeze"@ != "system"@);
    assert("unfreeze"@ != "system"@);
    assert("delay"@ != "system"@);
    assert("exempt"@[0] != "system"@[0]);
    assert("exempt"@ != "system"@);
    assert("discard"@ != "system"@);
    assert("policy"@[0] != "system"@[0]);
    assert("policy"@ != "system"@);
    assert("app"@ != "system"@);
}

/// Every reason for a discard, every treatment of push processes, and every way to freeze has a
/// word of its own, and that word tells it.
pub proof fn law_words_of_settings(r: DiscardReason, p: PushMode, f: FreezerLevel)
    ensures
        r == DiscardReason::FrozenTimeout <==> r.name() == "frozen_timeout"@,
        r == DiscardReason::Rule <==> r.name() == "rule_discard"@,
        r == DiscardReason::MemWatermark <==> r.name() == "mem_watermark"@,
        r == DiscardReason::BootReclaim <==> r.name() == "boot_reclaim"@,
        PushMode::named(p.name()) == Some(p),
        f == FreezerLevel::Missing <==> f.name() == "none"@,
        f == FreezerLevel::V1 <==> f.name() == "v1_freezer"@,
        f == FreezerLevel::UidV2 <==> f.name() == "uid_v2"@,
        f == FreezerLevel::PidV2 <==> f.name() == "pid_v2"@,
{
    reveal_strlit("frozen_timeout");
    reveal_strlit("rule_discard");
    reveal_strlit("mem_watermark");
    reveal_strlit("boot_reclaim");
    reveal_strlit("none");
    reveal_strlit("v1_freezer");
    reveal_strlit("uid_v2");
    reveal_strlit("pid_v2");
    reveal_strlit("keep");
    reveal_strlit("kill");
    assert("frozen_timeout"@.len() == 14);
    assert("rule_discard"@.len() == 12);
    assert("mem_watermark"@.len() == 13);
    assert("boot_reclaim"@.len() == 12);
    assert("none"@.len() == 4);
    assert("v1_freezer"@.len() == 10);
    assert("uid_v2"@.len() == 6);
    assert("pid_v2"@.len() == 6);
    assert("keep"@.len() == 4);
    assert("kill"@.len() == 4);
    assert("frozen_timeout"@ != "rule_discard"@);
    assert("frozen_timeout"@ != "mem_watermark"@);
    assert("rule_discard"@ != "mem_watermark"@);
    assert("frozen_timeout"@ != "boot_reclaim"@);
    assert("rule_discard"@[0] != "boot_reclaim"@[0]);
    assert("rule_discard"@ != "boot_reclaim"@);
    assert("mem_watermark"@ != "boot_reclaim"@);
    assert("none"@ != "v1_freezer"@);
    assert("none"@ != "uid_v2"@);
    assert("v1_freezer"@ != "uid_v2"@);
    assert("none"@ != "pid_v2"@);
    assert("v1_freezer"@ != "pid_v2"@);
    assert("uid_v2"@[0] != "pid_v2"@[0]);
    assert("uid_v2"@ != "pid_v2"@);
    assert("keep"@[1] != "kill"@[1]);
    assert("keep"@ != "kill"@);
}

/// The available memory is the first number on the first row of that name.
pub proof fn law_available_memory(rows: Seq<Seq<char>>, i: int, n: u64)
    requires
        0 <= i < rows.len(),
        forall|j: int| 0 <= j < i ==> !"MemAvailable:"@.is_prefix_of(#[trigger] rows[j]),
        "MemAvailable:"@.is_prefix_of(rows[i]),
    ensures
        ({
            let w = words(rows[i].skip("MemAvailable:"@.len() as int));
            &&& w.len() > 0 && unsigned_of(w[0], u64::MAX as int) == Some(n as int) ==> mem_available(
                rows,
            ) == Some(n)
            &&& w.len() == 0 ==> mem_available(rows) is None
        }),
    decreases rows.len(),
{
    if i > 0 {
        let r = rows.skip(1);
        assert(!"MemAvailable:"@.is_prefix_of(rows[0]));
        assert forall|j: int| 0 <= j < i - 1 implies !"MemAvailable:"@.is_prefix_of(
            #[trigger] r[j],
        ) by {
            assert(r[j] == rows[j + 1]);
        }
        law_available_memory(r, i - 1, n);
    }
}

/// The memory of a process is four kB for every page of the second number on its row.
pub proof fn law_resident_memory(statm: Seq<char>, pages: u64)
    requires
        words(statm).len() >= 2,
        unsigned_of(words(statm)[1], u64::MAX as int) == Some(pages as int),
    ensures
        4 * pages <= u64::MAX ==> resident_kb(statm) == 4 * pages,
        4 * pages > u64::MAX ==> resident_kb(statm) == u64::MAX,
{
}

/// Settings are in the files whose name ends in `.toml` or `.json`, and in no others.
pub proof fn law_files_with_settings(a: Seq<u8>, name: Seq<u8>)
    ensures
        holds_settings(a + seq![46u8, 116, 111, 109, 108]),
        holds_settings(a + seq![46u8, 106, 115, 111, 110]),
        holds_settings(name) ==> name.len() >= 5 && name[name.len() - 5] == 46u8,
{
    let t = a + seq![46u8, 116, 111, 109, 108];
    let j = a + seq![46u8, 106, 115, 111, 110];
    assert(t.skip(t.len() - 5) =~= seq![46u8, 116, 111, 109, 108]);
    assert(j.skip(j.len() - 5) =~= seq![46u8, 106, 115, 111, 110]);
    if holds_settings(name) {
        assert(name.skip(name.len() - 5)[0] == name[name.len() - 5]);
    }
}

/// An old event file keeps the name of the current one, with its number before the ending, or at
/// the end where there is no such ending.
pub proof fn law_old_event_files(base: Seq<char>, path: Seq<char>, n: nat)
    ensures
        old_log_name(base + ".jsonl"@, n) == base + "."@ + dec(n) + ".jsonl"@,
        !".jsonl"@.is_suffix_of(path) ==> old_log_name(path, n) == path + "."@ + dec(n),
{
    let t = base + ".jsonl"@;
    assert(t.skip(t.len() - ".jsonl"@.len()) =~= ".jsonl"@);
    assert(".jsonl"@.is_suffix_of(t));
    assert(t.take(t.len() - ".jsonl"@.len()) =~= base);
}

/// The owner of the tunnel is looked for again once the last search is a minute old, and where
/// there was none.
pub proof fn law_how_long_the_owner_is_known(c: VpnCache, now: u64)
    ensures
        c.at is None ==> !c.fresh(now),
        c.at matches Some(t) ==> (c.fresh(now) <==> now - t < 60_000_000_000),
{
}

/// Listeners are told of the frozen uids, and of the managed ones, exactly where the list differs
/// from the one that they were told last of the same kind; and then they are told all of it.
pub proof fn law_lists_are_told_when_they_change(s: SyncView, uids: Seq<u32>)
    ensures
        frozen_line(s, uids) is Some <==> s.frozen != number_list(uids),
        candidate_line(s, uids) is Some <==> s.candidates != number_list(uids),
        frozen_line(s, uids) matches Some(t) ==> exists|a: Seq<char>|
            #[trigger] ends_with_list(t, a, uids) && a == "event frozen-sync uid="@,
        candidate_line(s, uids) matches Some(t) ==> exists|a: Seq<char>|
            #[trigger] ends_with_list(t, a, uids) && a == "event candidate-sync uid="@,
{
    reveal_strlit("\n");
    let x = "event frozen-sync uid="@;
    let y = "event candidate-sync uid="@;
    if let Some(t) = frozen_line(s, uids) {
        assert("\n"@ =~= seq!['\n']);
        assert(ends_with_list(t, x, uids));
    }
    if let Some(t) = candidate_line(s, uids) {
        assert("\n"@ =~= seq!['\n']);
        assert(ends_with_list(t, y, uids));
    }
}

/// Whether a line is a beginning, the numbers, and nothing more.
pub open spec fn ends_with_list(t: Seq<char>, a: Seq<char>, uids: Seq<u32>) -> bool {
    t == a + number_list(uids) + seq!['\n']
}

/// A text that may be missing is told between quotes, or as nothing.
pub proof fn law_missing_texts(s: Seq<char>)
    ensures
        opt_quoted(None) == "null"@,
        opt_quoted(Some(s)) == seq!['"'] + s + seq!['"'],
{
    reveal_strlit("\"");
    assert(opt_quoted(Some(s)) =~= seq!['"'] + s + seq!['"']);
}

/// A list of texts is told in order, each between quotes, with commas between them.
pub proof fn law_lists_of_texts(v: Seq<Seq<char>>, x: Seq<char>)
    ensures
        string_array(Seq::empty()) == seq!['[', ']'],
        v.len() == 0 ==> string_array(v.push(x)) == seq!['[', '"'] + x + seq!['"', ']'],
        v.len() > 0 ==> string_array(v.push(x)) == string_array(v).drop_last() + seq![',', '"'] + x
            + seq!['"', ']'],
{
    reveal_strlit("[");
    reveal_strlit("]");
    reveal_strlit("\"");
    reveal_strlit(",");
    let f = |s: Seq<char>| quoted(s);
    assert(Seq::<Seq<char>>::empty().map_values(f) =~= Seq::<Seq<char>>::empty());
    assert(joined(Seq::<Seq<char>>::empty(), ","@) =~= Seq::<char>::empty());
    assert(string_array(Seq::empty()) =~= seq!['[', ']']);
    let w = v.push(x);
    assert(w.map_values(f) =~= v.map_values(f).push(quoted(x)));
    assert(v.map_values(f).push(quoted(x)).drop_last() =~= v.map_values(f));
    if v.len() == 0 {
        assert(v.map_values(f) =~= Seq::<Seq<char>>::empty());
        assert(string_array(w) =~= seq!['[', '"'] + x + seq!['"', ']']);
    } else {
        assert(string_array(w) =~= string_array(v).drop_last() + seq![',', '"'] + x + seq!['"', ']']);
    }
}

/// A list of numbers is told in order, with commas between them.
pub proof fn law_lists_of_numbers(v: Seq<u32>, n: u32)
    ensures
        number_list(Seq::empty()) == Seq::<char>::empty(),
        v.len() == 0 ==> number_list(v.push(n)) == dec(n as nat),
        v.len() > 0 ==> number_list(v.push(n)) == number_list(v) + seq![','] + dec(n as nat),
{
    reveal_strlit(",");
    let f = |n: u32| dec(n as nat);
    assert(Seq::<u32>::empty().map_values(f) =~= Seq::<Seq<char>>::empty());
    assert(number_list(Seq::empty()) =~= Seq::<char>::empty());
    let w = v.push(n);
    assert(w.map_values(f) =~= v.map_values(f).push(dec(n as nat)));
    assert(v.map_values(f).push(dec(n as nat)).drop_last() =~= v.map_values(f));
    if v.len() == 0 {
        assert(v.map_values(f) =~= Seq::<Seq<char>>::empty());
        assert(number_list(w) =~= dec(n as nat));
    } else {
        assert(number_list(w) =~= number_list(v) + seq![','] + dec(n as nat));
    }
}

/// The lowest byte of a number stands first, in four bytes as in eight.
pub proof fn law_low_bytes_come_first(b: Seq<u8>, at: int)
    requires
        0 <= at,
        at + 8 <= b.len(),
    ensures
        word(b, at) % 256 == b[at],
        word(b, at) / 256 % 256 == b[at + 1],
        word(b, at) / 65536 % 256 == b[at + 2],
        word(b, at) / 16777216 == b[at + 3],
        0 <= word(b, at) < 0x1_0000_0000,
        wide(b, at) % 0x1_0000_0000 == word(b, at),
        wide(b, at) / 0x1_0000_0000 == word(b, at + 4),
{
}

/// A name ends before its first zero.
pub proof fn law_names_end_at_zero(a: Seq<u8>, rest: Seq<u8>)
    requires
        forall|i: int| 0 <= i < a.len() ==> a[i] != 0,
    ensures
        until_zero(a + seq![0u8] + rest) == a,
        until_zero(a) == a,
    decreases a.len(),
{
    let t = a + seq![0u8] + rest;
    if a.len() > 0 {
        assert(t.skip(1) =~= a.skip(1) + seq![0u8] + rest);
        law_names_end_at_zero(a.skip(1), rest);
        assert(t[0] == a[0]);
        assert(seq![a[0]] + a.skip(1) =~= a);
    } else {
        assert(t[0] == 0);
        assert(until_zero(t) =~= a);
        assert(until_zero(a) =~= a);
    }
}

/// The first change that is reported has the bits behind its fifth byte, and the name behind its
/// sixteenth; those behind it follow.
pub proof fn law_changes_follow_each_other(b: Seq<u8>, n: int)
    requires
        b.len() >= 16,
        n == word(b, 12),
        0 < n,
        16 + n <= b.len(),
    ensures
        changes(b).len() > 0,
        changes(b)[0].mask == word(b, 4),
        changes(b)[0].name == until_zero(b.subrange(16, 16 + n)),
        changes(b).skip(1) == changes(b.skip(16 + n)),
{
    let rest = changes(b.skip(16 + n));
    assert(changes(b).skip(1) =~= rest);
}

} // verus!
