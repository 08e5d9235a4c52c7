//! What is read from the device, and what is written to it.

use vstd::prelude::*;
use crate::capability::{
    first_pid_file, first_uid_dir, freeze_file, group_views, law_first_uid_dir, probed, usable_uid,
    FreezerLevel, GroupView, ProbeReadings,
};
use crate::engine_rules::{
    in_vendor_domain, is_media_process, media_uid_of, on_system_partition, pm_system, system_names,
    ProcTextView,
};
use crate::freezer::{
    dir_pid, dir_uid, effective_uid, falls_back, frozen_group_files, frozen_of, has_frozen,
    has_procs, holds_tun, iface_of, is_pid_dir, is_push_command, is_push_name, is_tun_link,
    is_tun_name, keep_push_of, lists_pid, lower, lowered, owned_of, package_row, packages_of,
    pid_freeze_text, pids_in, plain_pids, residual_all, residual_of, residual_path, residual_pids,
    says_frozen, says_procs, tells_tun, tun_owner, tun_uid, KeepPushView, PidDirView, ProcFdsView,
    UidDirView,
};
use crate::names::{has_key, lemma_with_key, lemma_with_name, value_of};
use crate::text::{
    dec, digits_value, is_digit, is_numeral, is_space, last_index_of, law_dec_reads_back,
    lemma_dec_value, lemma_digits_value_grows, lemma_trimmed_fixed, trimmed, unsigned_of,
};

verus! {

// ---- Packages and uids ----

/// The uid of a package is that of the last row that names it; one that no row names has none.
pub proof fn law_last_row_counts(rows: Seq<Seq<char>>, i: int, pkg: Seq<char>, uid: u32)
    requires
        0 <= i < rows.len(),
        package_row(rows[i]) == Some((pkg, uid)),
        forall|j: int| i < j < rows.len() ==> !(package_row(#[trigger] rows[j]) matches Some(p) && p.0 == pkg),
    ensures
        value_of(packages_of(rows), pkg) == Some(uid),
    decreases rows.len(),
{
    let d = rows.drop_last();
    assert(rows[rows.len() - 1] == rows.last());
    if i < d.len() {
        assert forall|j: int| i < j < d.len() implies !(package_row(#[trigger] d[j]) matches Some(p) && p.0
            == pkg) by {
            assert(d[j] == rows[j]);
        }
        law_last_row_counts(d, i, pkg, uid);
    }
    if let Some(p) = package_row(rows.last()) {
        lemma_with_key(packages_of(d), p.0, p.1, pkg);
    }
}

/// A package that no row names has no uid.
pub proof fn law_unnamed_packages_have_no_uid(rows: Seq<Seq<char>>, pkg: Seq<char>)
    requires
        forall|j: int|
            0 <= j < rows.len() ==> !(package_row(#[trigger] rows[j]) matches Some(p) && p.0 == pkg),
    ensures
        !has_key(packages_of(rows), pkg),
    decreases rows.len(),
{
    if rows.len() > 0 {
        let d = rows.drop_last();
        assert(rows[rows.len() - 1] == rows.last());
        assert forall|j: int| 0 <= j < d.len() implies !(package_row(#[trigger] d[j]) matches Some(p) && p.0
            == pkg) by {
            assert(d[j] == rows[j]);
        }
        law_unnamed_packages_have_no_uid(d, pkg);
        if let Some(p) = package_row(rows.last()) {
            lemma_with_key(packages_of(d), p.0, p.1, pkg);
        }
    }
}

/// The directory of a uid, and that of a process, is read as its number.
pub proof fn law_directories_read_back(n: u32)
    ensures
        dir_uid("uid_"@ + dec(n as nat)) == Some(n),
        dir_pid("pid_"@ + dec(n as nat)) == Some(n),
        is_pid_dir("pid_"@ + dec(n as nat)),
{
    law_dec_reads_back(n as nat, u32::MAX as int);
    let a = "uid_"@ + dec(n as nat);
    let b = "pid_"@ + dec(n as nat);
    assert(a.take("uid_"@.len() as int) =~= "uid_"@);
    assert(b.take("pid_"@.len() as int) =~= "pid_"@);
    assert(a.skip("uid_"@.len() as int) =~= dec(n as nat));
    assert(b.skip("pid_"@.len() as int) =~= dec(n as nat));
    assert("uid_"@.is_prefix_of(a));
    assert("pid_"@.is_prefix_of(b));
}

// ---- Groups ----

/// A uid has a process exactly where its own group lists one, or that of one of its processes
/// does; and something of it is frozen exactly where the file of one of these says 1.
pub proof fn law_what_groups_say(d: UidDirView, i: int)
    ensures
        says_procs(d.procs) ==> has_procs(d),
        says_frozen(d.freeze) ==> has_frozen(d),
        0 <= i < d.entries.len() && is_pid_dir(d.entries[i].name) && says_procs(d.entries[i].procs)
            ==> has_procs(d),
        0 <= i < d.entries.len() && is_pid_dir(d.entries[i].name) && says_frozen(d.entries[i].freeze)
            ==> has_frozen(d),
        !says_procs(d.procs) && (forall|j: int|
            0 <= j < d.entries.len() ==> !(is_pid_dir((#[trigger] d.entries[j]).name) && says_procs(
                d.entries[j].procs,
            ))) ==> !has_procs(d),
        !says_frozen(d.freeze) && (forall|j: int|
            0 <= j < d.entries.len() ==> !(is_pid_dir((#[trigger] d.entries[j]).name) && says_frozen(
                d.entries[j].freeze,
            ))) ==> !has_frozen(d),
{
}

/// A file says that its group is frozen exactly where it holds a 1, white space aside.
pub proof fn law_what_a_freeze_file_says(t: Seq<char>)
    ensures
        says_frozen(Some(t)) <==> trimmed(t).len() == 1 && trimmed(t)[0] == '1',
        !says_frozen(None),
        says_procs(Some(t)) <==> trimmed(t).len() > 0,
        !says_procs(None),
{
    reveal_strlit("1");
    if trimmed(t).len() == 1 && trimmed(t)[0] == '1' {
        assert(trimmed(t) =~= "1"@);
    }
}

/// The uids that have something frozen are exactly those whose directory says so.
pub proof fn law_which_uids_are_frozen(dirs: Seq<(Seq<char>, UidDirView)>, uid: u32)
    ensures
        frozen_of(dirs).contains(uid) <==> exists|i: int|
            0 <= i < dirs.len() && dir_uid((#[trigger] dirs[i]).0) == Some(uid) && has_frozen(
                dirs[i].1,
            ),
    decreases dirs.len(),
{
    if dirs.len() > 0 {
        let d = dirs.drop_last();
        law_which_uids_are_frozen(d, uid);
        let w = frozen_of(dirs);
        let k = frozen_of(d);
        assert(dirs[dirs.len() - 1] == dirs.last());
        if k.contains(uid) {
            let j = choose|j: int| 0 <= j < k.len() && k[j] == uid;
            assert(w[j] == uid);
            let i = choose|i: int|
                0 <= i < d.len() && dir_uid((#[trigger] d[i]).0) == Some(uid) && has_frozen(d[i].1);
            assert(dirs[i] == d[i]);
        }
        if w.len() > k.len() {
            assert(w[w.len() - 1] == dir_uid(dirs.last().0)->0);
        }
        if w.contains(uid) && !k.contains(uid) {
            let j = choose|j: int| 0 <= j < w.len() && w[j] == uid;
            if j < k.len() {
                assert(k[j] == uid);
            }
        }
        if exists|i: int|
            0 <= i < dirs.len() && dir_uid((#[trigger] dirs[i]).0) == Some(uid) && has_frozen(
                dirs[i].1,
            ) {
            let i = choose|i: int|
                0 <= i < dirs.len() && dir_uid((#[trigger] dirs[i]).0) == Some(uid) && has_frozen(
                    dirs[i].1,
                );
            if i < d.len() {
                assert(d[i] == dirs[i]);
            }
        }
    }
}

// ---- Push processes ----

proof fn lemma_last_index(a: Seq<char>, c: char, b: Seq<char>)
    requires
        forall|i: int| 0 <= i < b.len() ==> b[i] != c,
    ensures
        last_index_of(a + seq![c] + b, c) == a.len(),
    decreases b.len(),
{
    let t = a + seq![c] + b;
    if b.len() == 0 {
        assert(t.last() == c);
    } else {
        assert(t.last() == b.last());
        assert(b.last() == b[b.len() - 1]);
        assert(t.drop_last() =~= a + seq![c] + b.drop_last());
        lemma_last_index(a, c, b.drop_last());
    }
}

proof fn lemma_no_index(a: Seq<char>, c: char)
    requires
        forall|i: int| 0 <= i < a.len() ==> a[i] != c,
    ensures
        last_index_of(a, c) == -1,
    decreases a.len(),
{
    if a.len() > 0 {
        assert(a.last() == a[a.len() - 1]);
        lemma_no_index(a.drop_last(), c);
    }
}

/// A process is a push process by what follows the last colon of its name, in capitals or not:
/// push, msf, channel or pull. One without a colon is none.
pub proof fn law_push_names(a: Seq<char>, b: Seq<char>)
    requires
        forall|i: int| 0 <= i < b.len() ==> b[i] != ':',
    ensures
        lowered(b) == "push"@ || lowered(b) == "msf"@ || lowered(b) == "channel"@ || lowered(b)
            == "pull"@ ==> is_push_name(a + seq![':'] + b),
        lowered(b) != "push"@ && lowered(b) != "msf"@ && lowered(b) != "channel"@ && lowered(b)
            != "pull"@ ==> !is_push_name(a + seq![':'] + b),
        !is_push_name(b),
{
    lemma_last_index(a, ':', b);
    lemma_no_index(b, ':');
    let t = a + seq![':'] + b;
    assert(t.skip(a.len() as int + 1) =~= b);
}

/// A freeze that keeps the push processes freezes every other process that has a group with a
/// number, counts every group, and counts those that it keeps.
pub proof fn law_others_are_frozen(uid: u32, es: Seq<PidDirView>, i: int)
    requires
        0 <= i < es.len(),
    ensures
        is_pid_dir(es[i].name) && dir_pid(es[i].name) is Some && !is_push_command(es[i].cmdline)
            ==> keep_push_of(uid, es).paths.contains(pid_freeze_text(uid, es[i].name)),
        is_pid_dir(es[i].name) ==> keep_push_of(uid, es).found > 0,
        dir_pid(es[i].name) is Some && is_push_command(es[i].cmdline) ==> keep_push_of(uid, es).kept > 0,
        keep_push_of(uid, es).kept + keep_push_of(uid, es).paths.len() <= keep_push_of(uid, es).found,
        keep_push_of(uid, es).found <= es.len(),
    decreases es.len(),
{
    let w = keep_push_of(uid, es);
    let d = es.drop_last();
    let k = keep_push_of(uid, d);
    assert(es[es.len() - 1] == es.last());
    if d.len() > 0 {
        if i < d.len() {
            law_others_are_frozen(uid, d, i);
            if k.paths.contains(pid_freeze_text(uid, es[i].name)) {
                let j = choose|j: int|
                    0 <= j < k.paths.len() && k.paths[j] == pid_freeze_text(uid, es[i].name);
                assert(w.paths[j] == k.paths[j]);
            }
        } else {
            law_others_are_frozen(uid, d, 0);
        }
    }
    if i == es.len() - 1 && w.paths.len() > k.paths.len() {
        assert(w.paths[w.paths.len() - 1] == pid_freeze_text(uid, es[i].name));
    }
}

/// The processes of a uid are those that a group names and also lists; of its push processes,
/// those of them that are.
pub proof fn law_which_processes_are_owned(es: Seq<PidDirView>, push_only: bool, pid: u32)
    ensures
        owned_of(es, push_only).contains(pid) <==> exists|i: int|
            0 <= i < es.len() && dir_pid((#[trigger] es[i]).name) == Some(pid) && lists_pid(
                es[i].procs,
                pid,
            ) && (push_only ==> is_push_command(es[i].cmdline)),
    decreases es.len(),
{
    if es.len() > 0 {
        let d = es.drop_last();
        law_which_processes_are_owned(d, push_only, pid);
        let w = owned_of(es, push_only);
        let k = owned_of(d, push_only);
        assert(es[es.len() - 1] == es.last());
        if k.contains(pid) {
            let j = choose|j: int| 0 <= j < k.len() && k[j] == pid;
            assert(w[j] == pid);
            let i = choose|i: int|
                0 <= i < d.len() && dir_pid((#[trigger] d[i]).name) == Some(pid) && lists_pid(
                    d[i].procs,
                    pid,
                ) && (push_only ==> is_push_command(d[i].cmdline));
            assert(es[i] == d[i]);
        }
        if w.len() > k.len() {
            assert(w[w.len() - 1] == dir_pid(es.last().name)->0);
        }
        if w.contains(pid) && !k.contains(pid) {
            let j = choose|j: int| 0 <= j < w.len() && w[j] == pid;
            if j < k.len() {
                assert(k[j] == pid);
            }
        }
        if exists|i: int|
            0 <= i < es.len() && dir_pid((#[trigger] es[i]).name) == Some(pid) && lists_pid(
                es[i].procs,
                pid,
            ) && (push_only ==> is_push_command(es[i].cmdline)) {
            let i = choose|i: int|
                0 <= i < es.len() && dir_pid((#[trigger] es[i]).name) == Some(pid) && lists_pid(
                    es[i].procs,
                    pid,
                ) && (push_only ==> is_push_command(es[i].cmdline));
            if i < d.len() {
                assert(d[i] == es[i]);
            }
        }
    }
}

// ---- What is left frozen ----

/// What was left frozen of a uid is thawed: its own group where that is frozen, and every group
/// of a process that is; nothing is done in a directory that is not of a uid.
pub proof fn law_residue_is_thawed(dir: Seq<char>, d: UidDirView, i: int)
    ensures
        "uid_"@.is_prefix_of(dir) && says_frozen(d.freeze) ==> residual_of(dir, d).contains(
            (residual_path(dir), true),
        ),
        "uid_"@.is_prefix_of(dir) && 0 <= i < d.entries.len() && is_pid_dir(d.entries[i].name)
            && says_frozen(d.entries[i].freeze) ==> residual_of(dir, d).contains(
            (residual_path(dir + "/"@ + d.entries[i].name), false),
        ),
        !"uid_"@.is_prefix_of(dir) ==> residual_of(dir, d).len() == 0,
        !has_frozen(d) ==> residual_of(dir, d).len() == 0,
{
    let w = residual_of(dir, d);
    let k = residual_pids(dir, d.entries);
    if "uid_"@.is_prefix_of(dir) {
        if says_frozen(d.freeze) {
            assert(w[0] == (residual_path(dir), true));
        }
        if 0 <= i < d.entries.len() && is_pid_dir(d.entries[i].name) && says_frozen(
            d.entries[i].freeze,
        ) {
            lemma_residual_found(dir, d.entries, i);
            let x = (residual_path(dir + "/"@ + d.entries[i].name), false);
            let j = choose|j: int| 0 <= j < k.len() && k[j] == x;
            if says_frozen(d.freeze) {
                assert(w[j + 1] == x);
            } else {
                assert(w[j] == x);
            }
        }
        if !has_frozen(d) {
            lemma_no_residue(dir, d.entries);
        }
    }
}

proof fn lemma_residual_found(dir: Seq<char>, es: Seq<PidDirView>, i: int)
    requires
        0 <= i < es.len(),
        is_pid_dir(es[i].name),
        says_frozen(es[i].freeze),
    ensures
        residual_pids(dir, es).contains((residual_path(dir + "/"@ + es[i].name), false)),
    decreases es.len(),
{
    let w = residual_pids(dir, es);
    let x = (residual_path(dir + "/"@ + es[i].name), false);
    if i < es.len() - 1 {
        let k = residual_pids(dir, es.drop_last());
        lemma_residual_found(dir, es.drop_last(), i);
        let j = choose|j: int| 0 <= j < k.len() && k[j] == x;
        assert(w[j] == x);
    } else {
        assert(w[w.len() - 1] == x);
    }
}

proof fn lemma_no_residue(dir: Seq<char>, es: Seq<PidDirView>)
    requires
        forall|i: int|
            0 <= i < es.len() ==> !(is_pid_dir((#[trigger] es[i]).name) && says_frozen(es[i].freeze)),
    ensures
        residual_pids(dir, es).len() == 0,
    decreases es.len(),
{
    if es.len() > 0 {
        let d = es.drop_last();
        assert(es[es.len() - 1] == es.last());
        assert forall|i: int| 0 <= i < d.len() implies !(is_pid_dir((#[trigger] d[i]).name)
            && says_frozen(d[i].freeze)) by {
            assert(d[i] == es[i]);
        }
        lemma_no_residue(dir, d);
    }
}

/// Only the groups of processes that are frozen are thawed one by one.
pub proof fn law_only_frozen_groups_are_thawed(uid: u32, es: Seq<PidDirView>)
    requires
        forall|i: int|
            0 <= i < es.len() ==> !(is_pid_dir((#[trigger] es[i]).name) && says_frozen(es[i].freeze)),
    ensures
        frozen_group_files(uid, es).len() == 0,
    decreases es.len(),
{
    if es.len() > 0 {
        let d = es.drop_last();
        assert(es[es.len() - 1] == es.last());
        assert forall|i: int| 0 <= i < d.len() implies !(is_pid_dir((#[trigger] d[i]).name)
            && says_frozen(d[i].freeze)) by {
            assert(d[i] == es[i]);
        }
        law_only_frozen_groups_are_thawed(uid, d);
    }
}

// ---- Processes ----

/// The processes among the names of directories are those whose name is the prefix and a number,
/// and no others.
pub proof fn law_processes_among_directories(names: Seq<Seq<char>>, prefix: Seq<char>, n: u32)
    ensures
        pids_in(names, prefix).contains(n) <==> exists|i: int|
            0 <= i < names.len() && prefix.is_prefix_of(#[trigger] names[i]) && unsigned_of(
                names[i].skip(prefix.len() as int),
                u32::MAX as int,
            ) == Some(n as int),
        plain_pids(names).contains(n) <==> exists|i: int|
            0 <= i < names.len() && is_numeral(#[trigger] names[i]) && digits_value(names[i]) == n,
    decreases names.len(),
{
    if names.len() > 0 {
        let d = names.drop_last();
        law_processes_among_directories(d, prefix, n);
        assert(names[names.len() - 1] == names.last());
        let w = pids_in(names, prefix);
        let k = pids_in(d, prefix);
        let v = plain_pids(names);
        let l = plain_pids(d);
        let last = names.last();
        crate::text::lemma_unsigned_bound(last.skip(prefix.len() as int), u32::MAX as int);
        assert forall|i: int| 0 <= i < d.len() implies d[i] == names[i] by {}
        if k.contains(n) {
            let j = choose|j: int| 0 <= j < k.len() && k[j] == n;
            assert(w[j] == n);
            let i = choose|i: int|
                0 <= i < d.len() && prefix.is_prefix_of(#[trigger] d[i]) && unsigned_of(
                    d[i].skip(prefix.len() as int),
                    u32::MAX as int,
                ) == Some(n as int);
            assert(names[i] == d[i]);
        }
        if l.contains(n) {
            let j = choose|j: int| 0 <= j < l.len() && l[j] == n;
            assert(v[j] == n);
            let i = choose|i: int|
                0 <= i < d.len() && is_numeral(#[trigger] d[i]) && digits_value(d[i]) == n;
            assert(names[i] == d[i]);
        }
        if w.len() > k.len() {
            assert(w[w.len() - 1] as int == unsigned_of(
                last.skip(prefix.len() as int),
                u32::MAX as int,
            )->0);
        }
        if v.len() > l.len() {
            lemma_digits_value_grows(last, 0);
            assert(v[v.len() - 1] == digits_value(last));
        }
        if w.contains(n) && !k.contains(n) {
            let j = choose|j: int| 0 <= j < w.len() && w[j] == n;
            if j < k.len() {
                assert(k[j] == n);
            }
        }
        if v.contains(n) && !l.contains(n) {
            let j = choose|j: int| 0 <= j < v.len() && v[j] == n;
            if j < l.len() {
                assert(l[j] == n);
            }
        }
        if exists|i: int|
            0 <= i < names.len() && prefix.is_prefix_of(#[trigger] names[i]) && unsigned_of(
                names[i].skip(prefix.len() as int),
                u32::MAX as int,
            ) == Some(n as int) {
            let i = choose|i: int|
                0 <= i < names.len() && prefix.is_prefix_of(#[trigger] names[i]) && unsigned_of(
                    names[i].skip(prefix.len() as int),
                    u32::MAX as int,
                ) == Some(n as int);
            if i < d.len() {
                assert(d[i] == names[i]);
            }
        }
        if exists|i: int|
            0 <= i < names.len() && is_numeral(#[trigger] names[i]) && digits_value(names[i]) == n {
            let i = choose|i: int|
                0 <= i < names.len() && is_numeral(#[trigger] names[i]) && digits_value(names[i]) == n;
            if i < d.len() {
                assert(d[i] == names[i]);
            }
        }
    }
}

/// The device of a tunnel is told by its name: tun and a number, and no other.
pub proof fn law_tunnel_names(n: nat, s: Seq<char>)
    ensures
        is_tun_name("tun"@ + dec(n)),
        is_tun_name(s) ==> "tun"@.is_prefix_of(s) && is_digit(s[3]),
        !is_tun_name("tun"@),
{
    reveal_strlit("tun");
    lemma_dec_value(n);
    let t = "tun"@ + dec(n);
    let d = dec(n);
    assert(t.take(3) =~= "tun"@);
    assert("tun"@.is_prefix_of(t));
    assert forall|i: int| 3 <= i < t.len() implies is_digit(#[trigger] t[i]) by {
        assert(t[i] == d[i - 3]);
        assert(is_digit(d[i - 3]));
    }
}

/// The owner of the tunnel is the first process that has it open and whose uid can be read;
/// where none has, there is none.
pub proof fn law_who_owns_the_tunnel(ps: Seq<ProcFdsView>, i: int)
    requires
        0 <= i <= ps.len(),
        forall|j: int| 0 <= j < i ==> tun_uid(#[trigger] ps[j]) is None,
        i < ps.len() ==> tun_uid(ps[i]) is Some,
    ensures
        i < ps.len() ==> tun_owner(ps) == tun_uid(ps[i]),
        i == ps.len() ==> tun_owner(ps) is None,
    decreases ps.len(),
{
    if ps.len() > 0 && i > 0 {
        let r = ps.skip(1);
        assert(tun_uid(ps[0]) is None);
        assert forall|j: int| 0 <= j < i - 1 implies tun_uid(#[trigger] r[j]) is None by {
            assert(r[j] == ps[j + 1]);
        }
        law_who_owns_the_tunnel(r, i - 1);
    }
}

/// A process has the tunnel open where one of its links leads to it, and then its effective uid
/// counts.
pub proof fn law_what_opens_the_tunnel(p: ProcFdsView, i: int, rest: Seq<char>)
    ensures
        0 <= i < p.links.len() && is_tun_link(p.links[i]) ==> holds_tun(p),
        (forall|j: int| 0 <= j < p.links.len() ==> !is_tun_link(#[trigger] p.links[j]))
            ==> tun_uid(p) is None,
        holds_tun(p) && p.status is Some ==> tun_uid(p) == effective_uid(
            crate::text::line_texts(p.status->0),
        ),
        p.status is None ==> tun_uid(p) is None,
        is_tun_link("/dev/tun"@ + rest),
        is_tun_link("anon_inode:[tun"@ + rest),
{
    let a = "/dev/tun"@ + rest;
    assert(a.take("/dev/tun"@.len() as int) =~= "/dev/tun"@);
    assert("/dev/tun"@.is_prefix_of(a));
    let b = "anon_inode:[tun"@ + rest;
    assert(b.take("anon_inode:[tun"@.len() as int) =~= "anon_inode:[tun"@);
    assert(b.skip(0) =~= b);
    reveal_strlit("anon_inode:[tun");
    assert("anon_inode:[tun"@.is_prefix_of(b.skip(0)));
}

/// The uid of the media process is that of the first process by its name, where that can be
/// read.
pub proof fn law_first_media_process_counts(ps: Seq<ProcTextView>, i: int)
    requires
        0 <= i <= ps.len(),
        forall|j: int| 0 <= j < i ==> !is_media_process(#[trigger] ps[j]),
        i < ps.len() ==> is_media_process(ps[i]),
    ensures
        i < ps.len() ==> media_uid_of(ps) == crate::freezer::real_uid(
            crate::text::line_texts(ps[i].status),
        ),
        i == ps.len() ==> media_uid_of(ps) is None,
    decreases ps.len(),
{
    if ps.len() > 0 && i > 0 {
        let r = ps.skip(1);
        assert(!is_media_process(ps[0]));
        assert forall|j: int| 0 <= j < i - 1 implies !is_media_process(#[trigger] r[j]) by {
            assert(r[j] == ps[j + 1]);
        }
        law_first_media_process_counts(r, i - 1);
    }
}

// ---- System packages ----

/// The packages of the system are exactly those that a row names as such.
pub proof fn law_who_belongs_to_the_system(rows: Seq<Seq<char>>, p: Seq<char>)
    ensures
        system_names(rows).contains(p) <==> exists|i: int|
            0 <= i < rows.len() && pm_system(#[trigger] rows[i]) == Some(p),
    decreases rows.len(),
{
    if rows.len() > 0 {
        let d = rows.drop_last();
        law_who_belongs_to_the_system(d, p);
        assert(rows[rows.len() - 1] == rows.last());
        if let Some(q) = pm_system(rows.last()) {
            lemma_with_name(system_names(d), q, p);
        }
        if system_names(d).contains(p) {
            let i = choose|i: int| 0 <= i < d.len() && pm_system(#[trigger] d[i]) == Some(p);
            assert(rows[i] == d[i]);
        }
        if exists|i: int| 0 <= i < rows.len() && pm_system(#[trigger] rows[i]) == Some(p) {
            let i = choose|i: int| 0 <= i < rows.len() && pm_system(#[trigger] rows[i]) == Some(p);
            if i < d.len() {
                assert(d[i] == rows[i]);
            }
        }
    }
}

/// A row that gives the path and the name of a package makes it one of the system exactly where
/// its path lies on a partition of the system, or its name in the name space of the vendor.
pub proof fn law_rows_of_the_package_manager(path: Seq<char>, pkg: Seq<char>)
    requires
        pkg.len() > 0,
        trimmed(pkg) == pkg,
        forall|i: int| 0 <= i < pkg.len() ==> pkg[i] != '=',
    ensures
        on_system_partition(path + seq!['='] + pkg) || in_vendor_domain(pkg) ==> pm_system(
            "package:"@ + path + seq!['='] + pkg,
        ) == Some(pkg),
        !on_system_partition(path + seq!['='] + pkg) && !in_vendor_domain(pkg) ==> pm_system(
            "package:"@ + path + seq!['='] + pkg,
        ) is None,
{
    reveal_strlit("package:");
    let row = "package:"@ + path + seq!['='] + pkg;
    crate::text::lemma_trimmed_ends(pkg);
    assert(row[0] == 'p');
    assert(row.last() == pkg.last());
    lemma_trimmed_fixed(row);
    lemma_last_index("package:"@ + path, '=', pkg);
    assert(row.skip(("package:"@ + path).len() as int + 1) =~= pkg);
    assert(row.take("package:"@.len() as int) =~= "package:"@);
    assert("package:"@.is_prefix_of(row));
    assert(row.skip("package:"@.len() as int) =~= path + seq!['='] + pkg);
}

proof fn lemma_on_partition(dir: Seq<char>, rest: Seq<char>)
    requires
        dir.len() > 0,
        dir[0] == '/',
        rest.len() > 0,
        !is_space(rest.last()),
    ensures
        trimmed(dir + rest) == dir + rest,
        dir.is_prefix_of(dir + rest),
{
    let t = dir + rest;
    assert(t[0] == '/');
    assert(t.last() == rest.last());
    lemma_trimmed_fixed(t);
    assert(t.take(dir.len() as int) =~= dir);
}

/// Everything below the directories of the system lies on a partition of it; what lies in the
/// directories of apps does not.
pub proof fn law_partitions_of_the_system(rest: Seq<char>)
    requires
        rest.len() > 0,
        !is_space(rest.last()),
    ensures
        on_system_partition("/system/"@ + rest),
        on_system_partition("/vendor/"@ + rest),
        on_system_partition("/product/"@ + rest),
        on_system_partition("/odm/"@ + rest),
        on_system_partition("/system_ext/"@ + rest),
        on_system_partition("/apex/"@ + rest),
        !on_system_partition("/data/"@ + rest),
{
    reveal_strlit("/system/");
    reveal_strlit("/vendor/");
    reveal_strlit("/product/");
    reveal_strlit("/odm/");
    reveal_strlit("/system_ext/");
    reveal_strlit("/apex/");
    reveal_strlit("/data/");
    lemma_on_partition("/system/"@, rest);
    lemma_on_partition("/vendor/"@, rest);
    lemma_on_partition("/product/"@, rest);
    lemma_on_partition("/odm/"@, rest);
    lemma_on_partition("/system_ext/"@, rest);
    lemma_on_partition("/apex/"@, rest);
    lemma_on_partition("/data/"@, rest);
    let t = "/data/"@ + rest;
    assert(t[1] == 'd');
    assert("/system/"@[1] == 's' && "/vendor/"@[1] == 'v' && "/product/"@[1] == 'p' && "/odm/"@[1] == 'o'
        && "/system_ext/"@[1] == 's' && "/apex/"@[1] == 'a');
}

/// Every name that begins like those of the vendor lies in its name space.
pub proof fn law_names_of_the_vendor(rest: Seq<char>)
    ensures
        in_vendor_domain("com.oplus."@ + rest),
        in_vendor_domain("com.coloros."@ + rest),
        in_vendor_domain("com.oneplus."@ + rest),
        in_vendor_domain("com.realme."@ + rest),
        in_vendor_domain("com.heytap."@ + rest),
        in_vendor_domain("com.nearme."@ + rest),
{
    assert(("com.oplus."@ + rest).take("com.oplus."@.len() as int) =~= "com.oplus."@);
    assert(("com.coloros."@ + rest).take("com.coloros."@.len() as int) =~= "com.coloros."@);
    assert(("com.oneplus."@ + rest).take("com.oneplus."@.len() as int) =~= "com.oneplus."@);
    assert(("com.realme."@ + rest).take("com.realme."@.len() as int) =~= "com.realme."@);
    assert(("com.heytap."@ + rest).take("com.heytap."@.len() as int) =~= "com.heytap."@);
    assert(("com.nearme."@ + rest).take("com.nearme."@.len() as int) =~= "com.nearme."@);
}

// ---- What the device can do ----

/// What was probed is what was read: the best way to freeze that there is, by uid, by process, or
/// the old one; and the rest as it was found.
pub proof fn law_what_is_probed(net: Seq<char>, r: ProbeReadings)
    ensures
        ({
            let c = probed(net, r);
            &&& c.cgroup_v2 == r.cgroup_v2 && c.madvise_willneed == r.madvise_willneed
            &&& c.net_source == net && c.probed_at == r.epoch
            &&& c.freezer_v1_path is Some <==> r.v1
            &&& c.freezer_uid_path is Some ==> c.freezer == FreezerLevel::UidV2
            &&& c.freezer_uid_path is None && c.freezer_pid_path is Some ==> c.freezer
                == FreezerLevel::PidV2
            &&& c.freezer_uid_path is None && c.freezer_pid_path is None && r.v1 ==> c.freezer
                == FreezerLevel::V1
            &&& c.freezer_uid_path is None && c.freezer_pid_path is None && !r.v1 ==> c.freezer
                == FreezerLevel::Missing
            &&& first_uid_dir(group_views(r.uid_dirs@)) matches Some(i) ==> c.freezer_uid_path
                == Some(freeze_file(group_views(r.uid_dirs@)[i].path))
            &&& first_uid_dir(group_views(r.uid_dirs@)) is None ==> (c.freezer_uid_path is Some
                <==> r.fallback) && c.freezer_pid_path is None
        }),
{
}

/// The uids of a process stand on the first row of that name: the real one first, the effective
/// one second.
pub proof fn law_uids_of_a_process(rows: Seq<Seq<char>>, i: int, own: u32, effective: u32)
    requires
        0 <= i < rows.len(),
        forall|j: int| 0 <= j < i ==> !"Uid:"@.is_prefix_of(#[trigger] rows[j]),
        "Uid:"@.is_prefix_of(rows[i]),
        crate::text::words(rows[i].skip("Uid:"@.len() as int)).len() >= 2,
        unsigned_of(crate::text::words(rows[i].skip("Uid:"@.len() as int))[0], u32::MAX as int)
            == Some(own as int),
        unsigned_of(crate::text::words(rows[i].skip("Uid:"@.len() as int))[1], u32::MAX as int)
            == Some(effective as int),
    ensures
        effective_uid(rows) == Some(effective),
        crate::freezer::real_uid(rows) == Some(own),
    decreases rows.len(),
{
    if i > 0 {
        let r = rows.skip(1);
        assert(!"Uid:"@.is_prefix_of(rows[0]));
        assert(r[i - 1] == rows[i]);
        assert forall|j: int| 0 <= j < i - 1 implies !"Uid:"@.is_prefix_of(#[trigger] r[j]) by {
            assert(r[j] == rows[j + 1]);
        }
        law_uids_of_a_process(r, i - 1, own, effective);
    }
}

/// The file by which single processes are frozen is that of the first group of a process that
/// has one.
pub proof fn law_first_process_group_counts(pids: Seq<GroupView>, i: int)
    requires
        0 <= i <= pids.len(),
        forall|j: int|
            0 <= j < i ==> !("pid_"@.is_prefix_of((#[trigger] pids[j]).name) && pids[j].freeze),
        i < pids.len() ==> "pid_"@.is_prefix_of(pids[i].name) && pids[i].freeze,
    ensures
        i < pids.len() ==> first_pid_file(pids) == Some(pids[i].path + "/cgroup.freeze"@),
        i == pids.len() ==> first_pid_file(pids) is None,
    decreases pids.len(),
{
    if pids.len() > 0 && i > 0 {
        let r = pids.skip(1);
        assert(!("pid_"@.is_prefix_of(pids[0].name) && pids[0].freeze));
        assert forall|j: int| 0 <= j < i - 1 implies !("pid_"@.is_prefix_of((#[trigger] r[j]).name)
            && r[j].freeze) by {
            assert(r[j] == pids[j + 1]);
        }
        law_first_process_group_counts(r, i - 1);
    }
}

/// A whole uid is frozen in place of its processes exactly where it has no group of a process, or
/// where none could be frozen and none is kept.
pub proof fn law_when_a_whole_uid_is_frozen(k: KeepPushView, any: bool)
    ensures
        k.found == 0 ==> falls_back(k, any),
        k.found > 0 && any ==> !falls_back(k, any),
        k.found > 0 && k.kept > 0 ==> !falls_back(k, any),
        k.found > 0 && !any && k.kept == 0 ==> falls_back(k, any),
{
}

/// What is left frozen is thawed in one directory after the other.
pub proof fn law_residue_of_all_directories(dirs: Seq<(Seq<char>, UidDirView)>, i: int, x: (Seq<char>, bool))
    requires
        0 <= i < dirs.len(),
        residual_of(dirs[i].0, dirs[i].1).contains(x),
    ensures
        residual_all(dirs).contains(x),
    decreases dirs.len(),
{
    let d = dirs.drop_last();
    let k = residual_all(d);
    let l = residual_of(dirs.last().0, dirs.last().1);
    let w = residual_all(dirs);
    if i < d.len() {
        law_residue_of_all_directories(d, i, x);
        let j = choose|j: int| 0 <= j < k.len() && k[j] == x;
        assert(w[j] == x);
    } else {
        let j = choose|j: int| 0 <= j < l.len() && l[j] == x;
        assert(w[k.len() + j] == x);
    }
}

/// A process is listed exactly where a row is its number, white space aside.
pub proof fn law_what_lists_a_process(t: Seq<char>, i: int, pid: u32)
    ensures
        ({
            let rows = crate::text::line_texts(t);
            &&& 0 <= i < rows.len() && trimmed(rows[i]) == dec(pid as nat) ==> lists_pid(Some(t), pid)
            &&& (forall|j: int| 0 <= j < rows.len() ==> trimmed(#[trigger] rows[j]) != dec(pid as nat))
                ==> !lists_pid(Some(t), pid)
            &&& !lists_pid(None, pid)
        }),
{
    let rows = crate::text::line_texts(t);
    if 0 <= i < rows.len() && trimmed(rows[i]) == dec(pid as nat) {
        assert(crate::freezer::names_pid(rows[i], pid));
    }
}

/// A tunnel is up exactly where a row of the interfaces begins with its name, up to the colon.
pub proof fn law_what_tells_a_tunnel(rows: Seq<Seq<char>>, i: int)
    ensures
        0 <= i < rows.len() && is_tun_name(iface_of(rows[i])) ==> tells_tun(rows),
        (forall|j: int| 0 <= j < rows.len() ==> !is_tun_name(iface_of(#[trigger] rows[j])))
            ==> !tells_tun(rows),
{
}

/// Where the device has no group of its own to fall back on, it can be frozen by uid exactly
/// where a directory is named after a uid and has a freeze file.
pub proof fn law_what_can_be_frozen_by_uid(net: Seq<char>, r: ProbeReadings)
    ensures
        ({
            let ds = group_views(r.uid_dirs@);
            probed(net, r).freezer_uid_path is Some <==> r.fallback || exists|i: int|
                0 <= i < ds.len() && (#[trigger] ds[i]).freeze && ds[i].name.len() >= 4
                    && ds[i].name.take(4) == "uid_"@
        }),
{
    reveal_strlit("uid_");
    let ds = group_views(r.uid_dirs@);
    law_first_uid_dir(ds);
    assert forall|i: int| 0 <= i < ds.len() implies (usable_uid(#[trigger] ds[i]) <==> ds[i].freeze
        && ds[i].name.len() >= 4 && ds[i].name.take(4) == "uid_"@) by {
        let n = ds[i].name;
        if "uid_"@.is_prefix_of(n) {
            assert(n.take(4) =~= "uid_"@);
        }
        if n.len() >= 4 && n.take(4) == "uid_"@ {
            assert("uid_"@.is_prefix_of(n));
        }
    }
}

proof fn lemma_small_letter(c: char, d: char)
    requires
        !('A' <= c <= 'Z'),
        d == c || ('a' <= c <= 'z' && d as int == c as int - 32),
    ensures
        lower(d) == c,
{
}

/// Two names that differ only in capitals are the same in small letters: a capital is 32 places
/// before its small letter, and whatever is no capital stays.
pub proof fn law_capitals_do_not_count(a: Seq<char>, b: Seq<char>)
    requires
        a.len() == b.len(),
        forall|i: int|
            0 <= i < a.len() ==> !('A' <= #[trigger] a[i] <= 'Z') && (b[i] == a[i] || ('a' <= a[i]
                <= 'z' && b[i] as int == a[i] as int - 32)),
    ensures
        lowered(a) == a,
        lowered(b) == a,
{
    assert forall|i: int| 0 <= i < a.len() implies lowered(b)[i] == a[i] && lowered(a)[i] == a[i] by {
        assert(!('A' <= a[i] <= 'Z'));
        lemma_small_letter(a[i], b[i]);
        lemma_small_letter(a[i], a[i]);
    }
    assert(lowered(b) =~= a);
    assert(lowered(a) =~= a);
}

} // verus!
