//! The freezer of the control groups: what its files say, and what is written to them.
//!
//! Every app has a group `uid_<uid>` with one group `pid_<pid>` per process below it. A `1`
//! in `cgroup.freeze` freezes a group with everything below it, a `0` thaws it. The files
//! are read and written elsewhere; here their texts become decisions.

use vstd::prelude::*;
use crate::events::opt_view;
use crate::lists::slice_texts;
use crate::names::{value_of, with_key, NameMap};
use crate::network::time_since;
use crate::text::{
    chars_of, dec, digit, find, head, lines, parse_u32, push_dec, rfind, same, split_words,
    starts_with, string_of, strip_prefix, tail, trim, trim_start,
};

verus! {

broadcast use crate::lists::group_texts;

// ---- The package table ----

/// The package and the uid that a row of the package table names.
pub open spec fn package_row(row: Seq<char>) -> Option<(Seq<char>, u32)> {
    let w = crate::text::words(row);
    if w.len() < 2 {
        None
    } else {
        match crate::text::unsigned_of(w[1], u32::MAX as int) {
            Some(uid) => Some((w[0], uid as u32)),
            None => None,
        }
    }
}

/// The table that the rows make, a later row winning over an earlier one.
pub open spec fn packages_of(rows: Seq<Seq<char>>) -> Seq<(Seq<char>, u32)>
    decreases rows.len(),
{
    if rows.len() == 0 {
        Seq::empty()
    } else {
        match package_row(rows.last()) {
            Some(p) => with_key(packages_of(rows.drop_last()), p.0, p.1),
            None => packages_of(rows.drop_last()),
        }
    }
}

/// Reads the package table: `package uid ...` per row; other rows are skipped.
pub fn read_packages_list(text: &str) -> (r: NameMap<u32>)
    ensures
        r@ == packages_of(crate::text::line_texts(text@)),
{
    let v: Vec<char> = chars_of(text);
    let rows: Vec<&[char]> = lines(v.as_slice());
    let ghost all = slice_texts(rows@);
    let mut map: NameMap<u32> = NameMap::new();
    let mut i: usize = 0;
    while i < rows.len()
        invariant
            i <= rows.len(),
            all == slice_texts(rows@),
            map@ == packages_of(all.take(i as int)),
        decreases rows.len() - i,
    {
        assert(all.take(i + 1).drop_last() =~= all.take(i as int));
        let w: Vec<&[char]> = split_words(rows[i]);
        let ghost ws = slice_texts(w@);
        if w.len() >= 2 {
            if let Some(uid) = parse_u32(w[1]) {
                map.insert(string_of(w[0]), uid);
                assert(ws[0] == w@[0]@ && ws[1] == w@[1]@);
            }
        }
        i = i + 1;
    }
    assert(all.take(all.len() as int) =~= all);
    map
}

/// The uid of a package.
pub fn pkg_uid(table: &NameMap<u32>, pkg: &str) -> (r: Option<u32>)
    ensures
        r == value_of(table@, pkg@),
{
    match table.get(pkg) {
        Some(u) => Some(*u),
        None => None,
    }
}

/// The package table with the modification time of the file that it was read from.
#[derive(Debug)]
pub struct PkgCache {
    pub mtime: Option<u64>,
    pub table: NameMap<u32>,
}

impl PkgCache {
    pub fn new() -> (r: Self)
        ensures
            r.mtime is None,
            r.table@ == Seq::<(Seq<char>, u32)>::empty(),
    {
        PkgCache { mtime: None, table: NameMap::new() }
    }

    /// Whether the file has to be read again.
    pub fn stale(&self, mtime: u64) -> (r: bool)
        ensures
            r == (self.mtime != Some(mtime)),
    {
        match self.mtime {
            Some(m) => m != mtime,
            None => true,
        }
    }

    /// Takes over what was read; a file that cannot be read gives an empty table.
    pub fn reload(&mut self, mtime: u64, text: Option<&str>)
        ensures
            final(self).mtime == Some(mtime),
            final(self).table@ == match text {
                Some(s) => packages_of(crate::text::line_texts(s@)),
                None => Seq::empty(),
            },
    {
        self.mtime = Some(mtime);
        self.table = match text {
            Some(s) => read_packages_list(s),
            None => NameMap::new(),
        };
    }
}

// ---- Freezing whole apps ----

/// A text to be written to a file.
#[derive(Debug)]
pub struct FreezeWrite {
    pub path: String,
    pub value: &'static str,
}

pub open spec fn uid_dir_text(uid: u32) -> Seq<char> {
    "/sys/fs/cgroup/apps/uid_"@ + dec(uid as nat)
}

/// The group of an app.
pub fn uid_dir(uid: u32) -> (r: String)
    ensures
        r@ == uid_dir_text(uid),
{
    let mut s: String = String::from_str("/sys/fs/cgroup/apps/uid_");
    push_dec(&mut s, uid as u64);
    s
}

pub open spec fn uid_freeze_text(uid: u32) -> Seq<char> {
    uid_dir_text(uid) + "/cgroup.freeze"@
}

/// The file that freezes an app.
pub fn uid_freeze_path(uid: u32) -> (r: String)
    ensures
        r@ == uid_freeze_text(uid),
{
    let mut s: String = uid_dir(uid);
    s.append("/cgroup.freeze");
    s
}

/// What freezes an app.
pub fn freeze_uid(uid: u32) -> (r: FreezeWrite)
    ensures
        r.path@ == uid_freeze_text(uid),
        r.value@ == "1"@,
{
    FreezeWrite { path: uid_freeze_path(uid), value: "1" }
}

/// What thaws an app.
pub fn unfreeze_uid(uid: u32) -> (r: FreezeWrite)
    ensures
        r.path@ == uid_freeze_text(uid),
        r.value@ == "0"@,
{
    FreezeWrite { path: uid_freeze_path(uid), value: "0" }
}

/// What freezes a package; nothing where the table does not know it.
pub fn freeze_pkg(table: &NameMap<u32>, pkg: &str) -> (r: Option<FreezeWrite>)
    ensures
        match value_of(table@, pkg@) {
            Some(uid) => r matches Some(w) && w.path@ == uid_freeze_text(uid) && w.value@ == "1"@,
            None => r is None,
        },
{
    match pkg_uid(table, pkg) {
        Some(uid) => Some(freeze_uid(uid)),
        None => None,
    }
}

/// What thaws a package; nothing where the table does not know it.
pub fn unfreeze_pkg(table: &NameMap<u32>, pkg: &str) -> (r: Option<FreezeWrite>)
    ensures
        match value_of(table@, pkg@) {
            Some(uid) => r matches Some(w) && w.path@ == uid_freeze_text(uid) && w.value@ == "0"@,
            None => r is None,
        },
{
    match pkg_uid(table, pkg) {
        Some(uid) => Some(unfreeze_uid(uid)),
        None => None,
    }
}

/// The text of a group that is frozen.
pub open spec fn says_frozen(s: Option<Seq<char>>) -> bool {
    s matches Some(t) && crate::text::trimmed(t) == "1"@
}

fn frozen_text(s: &Option<String>) -> (r: bool)
    ensures
        r == says_frozen(opt_view(*s)),
{
    match s {
        Some(t) => {
            let v: Vec<char> = chars_of(t.as_str());
            same(trim(v.as_slice()), "1")
        },
        None => false,
    }
}

/// Whether an app is frozen as a whole; unknown where its file could not be read.
pub fn is_uid_frozen(freeze: &Option<String>) -> (r: Option<bool>)
    ensures
        r == match opt_view(*freeze) {
            Some(t) => Some(says_frozen(Some(t))),
            None => None,
        },
{
    match freeze {
        Some(_) => Some(frozen_text(freeze)),
        None => None,
    }
}

// ---- The group of an app ----

/// What was read of the group of a process.
#[derive(Debug)]
pub struct PidDir {
    /// The name of the directory.
    pub name: String,
    pub procs: Option<String>,
    pub freeze: Option<String>,
    /// The command line of the process that the name bears.
    pub cmdline: Option<String>,
}

/// What was read of the group of an app. Where its directory could not be read, there are
/// no groups below it.
#[derive(Debug)]
pub struct UidDir {
    pub procs: Option<String>,
    pub freeze: Option<String>,
    /// The entries of the directory.
    pub entries: Vec<PidDir>,
}

pub struct PidDirView {
    pub name: Seq<char>,
    pub procs: Option<Seq<char>>,
    pub freeze: Option<Seq<char>>,
    pub cmdline: Option<Seq<char>>,
}

pub struct UidDirView {
    pub procs: Option<Seq<char>>,
    pub freeze: Option<Seq<char>>,
    pub entries: Seq<PidDirView>,
}

impl View for PidDir {
    type V = PidDirView;

    open spec fn view(&self) -> PidDirView {
        PidDirView {
            name: self.name@,
            procs: opt_view(self.procs),
            freeze: opt_view(self.freeze),
            cmdline: opt_view(self.cmdline),
        }
    }
}

impl View for UidDir {
    type V = UidDirView;

    open spec fn view(&self) -> UidDirView {
        UidDirView {
            procs: opt_view(self.procs),
            freeze: opt_view(self.freeze),
            entries: Seq::new(self.entries@.len(), |i: int| self.entries@[i]@),
        }
    }
}

/// The groups of processes bear this prefix.
pub open spec fn is_pid_dir(name: Seq<char>) -> bool {
    "pid_"@.is_prefix_of(name)
}

/// The process that the name of a group bears.
pub open spec fn dir_pid(name: Seq<char>) -> Option<u32> {
    if is_pid_dir(name) {
        match crate::text::unsigned_of(name.skip("pid_"@.len() as int), u32::MAX as int) {
            Some(p) => Some(p as u32),
            None => None,
        }
    } else {
        None
    }
}

fn pid_of_dir(name: &str) -> (r: Option<u32>)
    ensures
        r == dir_pid(name@),
{
    let v: Vec<char> = chars_of(name);
    match strip_prefix(v.as_slice(), "pid_") {
        Some(rest) => parse_u32(rest),
        None => None,
    }
}

fn pid_dir(name: &str) -> (r: bool)
    ensures
        r == is_pid_dir(name@),
{
    let v: Vec<char> = chars_of(name);
    starts_with(v.as_slice(), "pid_")
}

/// A list of processes that is not blank.
pub open spec fn says_procs(s: Option<Seq<char>>) -> bool {
    s matches Some(t) && crate::text::trimmed(t).len() > 0
}

fn procs_text(s: &Option<String>) -> (r: bool)
    ensures
        r == says_procs(opt_view(*s)),
{
    match s {
        Some(t) => {
            let v: Vec<char> = chars_of(t.as_str());
            trim(v.as_slice()).len() > 0
        },
        None => false,
    }
}

/// Whether a process of the app is alive: some group below it lists one, or the group
/// itself does.
pub open spec fn has_procs(d: UidDirView) -> bool {
    ||| exists|i: int|
        0 <= i < d.entries.len() && is_pid_dir((#[trigger] d.entries[i]).name) && says_procs(
            d.entries[i].procs,
        )
    ||| says_procs(d.procs)
}

pub fn uid_has_procs(d: &UidDir) -> (r: bool)
    ensures
        r == has_procs(d@),
{
    let mut i: usize = 0;
    while i < d.entries.len()
        invariant
            i <= d.entries.len(),
            forall|j: int|
                0 <= j < i ==> !(is_pid_dir((#[trigger] d@.entries[j]).name) && says_procs(
                    d@.entries[j].procs,
                )),
        decreases d.entries.len() - i,
    {
        if pid_dir(d.entries[i].name.as_str()) && procs_text(&d.entries[i].procs) {
            assert(is_pid_dir(d@.entries[i as int].name) && says_procs(d@.entries[i as int].procs));
            return true;
        }
        i = i + 1;
    }
    procs_text(&d.procs)
}

/// Whether something of the app is frozen: the group itself, or one below it.
pub open spec fn has_frozen(d: UidDirView) -> bool {
    ||| says_frozen(d.freeze)
    ||| exists|i: int|
        0 <= i < d.entries.len() && is_pid_dir((#[trigger] d.entries[i]).name) && says_frozen(
            d.entries[i].freeze,
        )
}

pub fn uid_has_frozen_procs(d: &UidDir) -> (r: bool)
    ensures
        r == has_frozen(d@),
{
    if frozen_text(&d.freeze) {
        return true;
    }
    let mut i: usize = 0;
    while i < d.entries.len()
        invariant
            i <= d.entries.len(),
            !says_frozen(d@.freeze),
            forall|j: int|
                0 <= j < i ==> !(is_pid_dir((#[trigger] d@.entries[j]).name) && says_frozen(
                    d@.entries[j].freeze,
                )),
        decreases d.entries.len() - i,
    {
        if pid_dir(d.entries[i].name.as_str()) && frozen_text(&d.entries[i].freeze) {
            assert(is_pid_dir(d@.entries[i as int].name) && says_frozen(
                d@.entries[i as int].freeze,
            ));
            return true;
        }
        i = i + 1;
    }
    false
}

/// The uid that the name of an app's group bears.
pub open spec fn dir_uid(name: Seq<char>) -> Option<u32> {
    if "uid_"@.is_prefix_of(name) {
        match crate::text::unsigned_of(name.skip("uid_"@.len() as int), u32::MAX as int) {
            Some(u) => Some(u as u32),
            None => None,
        }
    } else {
        None
    }
}

pub fn uid_of_dir(name: &str) -> (r: Option<u32>)
    ensures
        r == dir_uid(name@),
{
    let v: Vec<char> = chars_of(name);
    match strip_prefix(v.as_slice(), "uid_") {
        Some(rest) => parse_u32(rest),
        None => None,
    }
}

/// The uids of the groups of which something is frozen, in the order of the groups.
pub open spec fn frozen_of(dirs: Seq<(Seq<char>, UidDirView)>) -> Seq<u32>
    decreases dirs.len(),
{
    if dirs.len() == 0 {
        Seq::empty()
    } else {
        let before = frozen_of(dirs.drop_last());
        match dir_uid(dirs.last().0) {
            Some(uid) => if has_frozen(dirs.last().1) {
                before.push(uid)
            } else {
                before
            },
            None => before,
        }
    }
}

pub open spec fn dir_views(dirs: Seq<(String, UidDir)>) -> Seq<(Seq<char>, UidDirView)> {
    Seq::new(dirs.len(), |i: int| (dirs[i].0@, dirs[i].1@))
}

/// The apps of which something is frozen.
pub fn frozen_uids(dirs: &Vec<(String, UidDir)>) -> (r: Vec<u32>)
    ensures
        r@ == frozen_of(dir_views(dirs@)),
{
    let ghost all = dir_views(dirs@);
    let mut out: Vec<u32> = Vec::new();
    let mut i: usize = 0;
    while i < dirs.len()
        invariant
            i <= dirs.len(),
            all == dir_views(dirs@),
            out@ == frozen_of(all.take(i as int)),
        decreases dirs.len() - i,
    {
        assert(all.take(i + 1).drop_last() =~= all.take(i as int));
        if let Some(uid) = uid_of_dir(dirs[i].0.as_str()) {
            if uid_has_frozen_procs(&dirs[i].1) {
                out.push(uid);
            }
        }
        i = i + 1;
    }
    assert(all.take(all.len() as int) =~= all);
    out
}

/// A write that thaws what was left frozen, and whether it is one for a whole app.
#[derive(Debug)]
pub struct ResidualWrite {
    pub path: String,
    pub whole: bool,
}

pub open spec fn residual_views(v: Seq<ResidualWrite>) -> Seq<(Seq<char>, bool)> {
    Seq::new(v.len(), |i: int| (v[i].path@, v[i].whole))
}

pub open spec fn residual_path(dir: Seq<char>) -> Seq<char> {
    "/sys/fs/cgroup/apps/"@ + dir + "/cgroup.freeze"@
}

/// The frozen groups of processes of an app.
pub open spec fn residual_pids(dir: Seq<char>, es: Seq<PidDirView>) -> Seq<(Seq<char>, bool)>
    decreases es.len(),
{
    if es.len() == 0 {
        Seq::empty()
    } else {
        let before = residual_pids(dir, es.drop_last());
        if is_pid_dir(es.last().name) && says_frozen(es.last().freeze) {
            before.push((residual_path(dir + "/"@ + es.last().name), false))
        } else {
            before
        }
    }
}

/// What is frozen of an app: the whole first, then its processes.
pub open spec fn residual_of(dir: Seq<char>, d: UidDirView) -> Seq<(Seq<char>, bool)> {
    if !"uid_"@.is_prefix_of(dir) {
        Seq::empty()
    } else if says_frozen(d.freeze) {
        seq![(residual_path(dir), true)] + residual_pids(dir, d.entries)
    } else {
        residual_pids(dir, d.entries)
    }
}

pub open spec fn residual_all(dirs: Seq<(Seq<char>, UidDirView)>) -> Seq<(Seq<char>, bool)>
    decreases dirs.len(),
{
    if dirs.len() == 0 {
        Seq::empty()
    } else {
        residual_all(dirs.drop_last()) + residual_of(dirs.last().0, dirs.last().1)
    }
}

fn residual_text(dir: &str, sub: Option<&str>) -> (r: String)
    ensures
        match sub {
            Some(n) => r@ == residual_path(dir@ + "/"@ + n@),
            None => r@ == residual_path(dir@),
        },
{
    let mut name: String = String::from_str(dir);
    if let Some(n) = sub {
        name.append("/");
        name.append(n);
    }
    let mut s: String = String::from_str("/sys/fs/cgroup/apps/");
    s.append(name.as_str());
    s.append("/cgroup.freeze");
    s
}

fn push_residual(out: &mut Vec<ResidualWrite>, dir: &str, d: &UidDir)
    ensures
        residual_views(final(out)@) == residual_views(old(out)@) + residual_of(dir@, d@),
{
    let ghost before = residual_views(out@);
    let v: Vec<char> = chars_of(dir);
    if !starts_with(v.as_slice(), "uid_") {
        assert(before + Seq::<(Seq<char>, bool)>::empty() =~= before);
        return;
    }
    let ghost mut base = before;
    if frozen_text(&d.freeze) {
        out.push(ResidualWrite { path: residual_text(dir, None), whole: true });
        proof {
            base = before.push((residual_path(dir@), true));
            assert(residual_views(out@) =~= base);
        }
    }
    let ghost es = d@.entries;
    let mut i: usize = 0;
    assert(base + residual_pids(dir@, es.take(0)) =~= base);
    while i < d.entries.len()
        invariant
            i <= d.entries.len(),
            es == d@.entries,
            residual_views(out@) == base + residual_pids(dir@, es.take(i as int)),
        decreases d.entries.len() - i,
    {
        assert(es.take(i + 1).drop_last() =~= es.take(i as int));
        let ghost done = residual_views(out@);
        let name: Vec<char> = chars_of(d.entries[i].name.as_str());
        if starts_with(name.as_slice(), "pid_") && frozen_text(&d.entries[i].freeze) {
            let path: String = residual_text(dir, Some(d.entries[i].name.as_str()));
            let ghost x = (path@, false);
            out.push(ResidualWrite { path, whole: false });
            assert(residual_views(out@) =~= done.push(x));
        }
        i = i + 1;
    }
    assert(es.take(es.len() as int) =~= es);
    assert(residual_views(out@) =~= before + residual_of(dir@, d@));
}

/// What thaws everything that is frozen, whoever froze it.
pub fn thaw_all_residual(dirs: &Vec<(String, UidDir)>) -> (r: Vec<ResidualWrite>)
    ensures
        residual_views(r@) == residual_all(dir_views(dirs@)),
{
    let ghost all = dir_views(dirs@);
    let mut out: Vec<ResidualWrite> = Vec::new();
    let mut i: usize = 0;
    assert(residual_views(out@) =~= residual_all(all.take(0)));
    while i < dirs.len()
        invariant
            i <= dirs.len(),
            all == dir_views(dirs@),
            residual_views(out@) == residual_all(all.take(i as int)),
        decreases dirs.len() - i,
    {
        assert(all.take(i + 1).drop_last() =~= all.take(i as int));
        push_residual(&mut out, dirs[i].0.as_str(), &dirs[i].1);
        i = i + 1;
    }
    assert(all.take(all.len() as int) =~= all);
    out
}

// ---- Push processes ----

/// The lower-case form of an ASCII letter.
pub open spec fn lower(c: char) -> char {
    if 65 <= c as u32 <= 90 {
        (c as u32 + 32) as char
    } else {
        c
    }
}

pub open spec fn lowered(s: Seq<char>) -> Seq<char> {
    s.map_values(|c: char| lower(c))
}

fn lower_char(c: char) -> (r: char)
    ensures
        r == lower(c),
{
    let u: u32 = c as u32;
    if 65 <= u && u <= 90 {
        ((u + 32) as u8) as char
    } else {
        c
    }
}

fn lower_text(s: &[char]) -> (r: Vec<char>)
    ensures
        r@ == lowered(s@),
{
    let mut out: Vec<char> = Vec::new();
    let mut i: usize = 0;
    while i < s.len()
        invariant
            i <= s.len(),
            out@ == lowered(s@.take(i as int)),
        decreases s.len() - i,
    {
        out.push(lower_char(s[i]));
        i = i + 1;
        assert(out@ =~= lowered(s@.take(i as int)));
    }
    assert(s@.take(s@.len() as int) =~= s@);
    out
}

/// A process name whose part after the last colon, in lower case, is one of the names of
/// push channels.
pub open spec fn is_push_name(s: Seq<char>) -> bool {
    let p = crate::text::last_index_of(s, ':');
    if p < 0 {
        false
    } else {
        let l = lowered(s.skip(p + 1));
        l == "push"@ || l == "msf"@ || l == "channel"@ || l == "pull"@
    }
}

pub fn is_push_cmdline(first_arg: &str) -> (r: bool)
    ensures
        r == is_push_name(first_arg@),
{
    let v: Vec<char> = chars_of(first_arg);
    let s: &[char] = v.as_slice();
    match rfind(s, ':') {
        Some(p) => {
            let l: Vec<char> = lower_text(tail(s, p + 1));
            let t: &[char] = l.as_slice();
            same(t, "push") || same(t, "msf") || same(t, "channel") || same(t, "pull")
        },
        None => false,
    }
}

/// The first argument of a command line, whose arguments end in NUL.
pub open spec fn first_argument(s: Seq<char>) -> Seq<char> {
    s.take(crate::text::index_of(s, '\0'))
}

/// Whether the command line is that of a push process.
pub open spec fn is_push_command(cmdline: Option<Seq<char>>) -> bool {
    cmdline matches Some(t) && is_push_name(first_argument(t))
}

pub fn first_arg(cmdline: &str) -> (r: String)
    ensures
        r@ == first_argument(cmdline@),
{
    let v: Vec<char> = chars_of(cmdline);
    let n: usize = find(v.as_slice(), '\0');
    string_of(head(v.as_slice(), n))
}

fn is_push_proc(cmdline: &Option<String>) -> (r: bool)
    ensures
        r == is_push_command(opt_view(*cmdline)),
{
    match cmdline {
        Some(t) => {
            let a: String = first_arg(t.as_str());
            is_push_cmdline(a.as_str())
        },
        None => false,
    }
}

pub open spec fn pid_freeze_text(uid: u32, name: Seq<char>) -> Seq<char> {
    uid_dir_text(uid) + "/"@ + name + "/cgroup.freeze"@
}

/// What a freeze that keeps the push processes has to do.
#[derive(Debug)]
pub struct KeepPushPlan {
    /// How many groups of processes there are.
    pub found: usize,
    /// How many of them are spared.
    pub kept: usize,
    /// The files that freeze the others.
    pub paths: Vec<String>,
}

pub struct KeepPushView {
    pub found: nat,
    pub kept: nat,
    pub paths: Seq<Seq<char>>,
}

impl View for KeepPushPlan {
    type V = KeepPushView;

    open spec fn view(&self) -> KeepPushView {
        KeepPushView {
            found: self.found as nat,
            kept: self.kept as nat,
            paths: crate::lists::texts(self.paths@),
        }
    }
}

/// The plan over the entries: a group whose name bears a process is spared where it is a
/// push process, and frozen otherwise.
pub open spec fn keep_push_of(uid: u32, es: Seq<PidDirView>) -> KeepPushView
    decreases es.len(),
{
    if es.len() == 0 {
        KeepPushView { found: 0, kept: 0, paths: Seq::empty() }
    } else {
        let k = keep_push_of(uid, es.drop_last());
        let e = es.last();
        if !is_pid_dir(e.name) {
            k
        } else if dir_pid(e.name) is None {
            KeepPushView { found: k.found + 1, ..k }
        } else if is_push_command(e.cmdline) {
            KeepPushView { found: k.found + 1, kept: k.kept + 1, ..k }
        } else {
            KeepPushView {
                found: k.found + 1,
                paths: k.paths.push(pid_freeze_text(uid, e.name)),
                ..k
            }
        }
    }
}

/// Whether the app has to be frozen as a whole after all: there are no groups of processes,
/// or none was spared and none could be frozen.
pub open spec fn falls_back(k: KeepPushView, frozen_any: bool) -> bool {
    k.found == 0 || (!frozen_any && k.kept == 0)
}

impl KeepPushPlan {
    pub fn needs_whole(&self, frozen_any: bool) -> (r: bool)
        ensures
            r == falls_back(self@, frozen_any),
    {
        self.found == 0 || (!frozen_any && self.kept == 0)
    }
}

/// The plan that freezes an app but for its push processes. The freeze took effect where one
/// of the files could be written; `needs_whole` says when to fall back to the whole app.
pub fn keep_push_plan(uid: u32, d: &UidDir) -> (r: KeepPushPlan)
    ensures
        r@ == keep_push_of(uid, d@.entries),
{
    let ghost all = d@.entries;
    let mut found: usize = 0;
    let mut kept: usize = 0;
    let mut paths: Vec<String> = Vec::new();
    let mut i: usize = 0;
    assert(crate::lists::texts(paths@) =~= Seq::empty());
    while i < d.entries.len()
        invariant
            i <= d.entries.len(),
            all == d@.entries,
            found <= i,
            kept <= i,
            (KeepPushView {
                found: found as nat,
                kept: kept as nat,
                paths: crate::lists::texts(paths@),
            }) == keep_push_of(uid, all.take(i as int)),
        decreases d.entries.len() - i,
    {
        assert(all.take(i + 1).drop_last() =~= all.take(i as int));
        assert(all.take(i + 1).last() == d.entries@[i as int]@);
        let name: &str = d.entries[i].name.as_str();
        if pid_dir(name) {
            found = found + 1;
            if pid_of_dir(name).is_some() {
                if is_push_proc(&d.entries[i].cmdline) {
                    kept = kept + 1;
                } else {
                    let mut p: String = uid_dir(uid);
                    p.append("/");
                    p.append(name);
                    p.append("/cgroup.freeze");
                    let ghost done = crate::lists::texts(paths@);
                    paths.push(p);
                    assert(crate::lists::texts(paths@) =~= done.push(pid_freeze_text(uid, name@)));
                }
            }
        }
        i = i + 1;
    }
    assert(all.take(all.len() as int) =~= all);
    KeepPushPlan { found, kept, paths }
}

/// The files of the groups of processes that are frozen on their own.
pub open spec fn frozen_group_files(uid: u32, es: Seq<PidDirView>) -> Seq<Seq<char>>
    decreases es.len(),
{
    if es.len() == 0 {
        Seq::empty()
    } else {
        let k = frozen_group_files(uid, es.drop_last());
        if is_pid_dir(es.last().name) && says_frozen(es.last().freeze) {
            k.push(pid_freeze_text(uid, es.last().name))
        } else {
            k
        }
    }
}

/// The files that thaw an app: that of its group, whose write decides whether it is thawed, and
/// those of the groups below it that are frozen on their own.
pub fn thaw_files(uid: u32, d: &UidDir) -> (r: Vec<String>)
    ensures
        crate::lists::texts(r@) == seq![uid_freeze_text(uid)] + frozen_group_files(uid, d@.entries),
{
    let ghost all = d@.entries;
    let ghost first = seq![uid_freeze_text(uid)];
    let mut paths: Vec<String> = Vec::new();
    paths.push(uid_freeze_path(uid));
    let mut i: usize = 0;
    assert(crate::lists::texts(paths@) =~= first + Seq::<Seq<char>>::empty());
    while i < d.entries.len()
        invariant
            i <= d.entries.len(),
            all == d@.entries,
            crate::lists::texts(paths@) == first + frozen_group_files(uid, all.take(i as int)),
        decreases d.entries.len() - i,
    {
        assert(all.take(i + 1).drop_last() =~= all.take(i as int));
        assert(all.take(i + 1).last() == d.entries@[i as int]@);
        let name: &str = d.entries[i].name.as_str();
        if pid_dir(name) && frozen_text(&d.entries[i].freeze) {
            let mut p: String = uid_dir(uid);
            p.append("/");
            p.append(name);
            p.append("/cgroup.freeze");
            let ghost done = crate::lists::texts(paths@);
            paths.push(p);
            assert(p@ =~= pid_freeze_text(uid, name@));
            assert(crate::lists::texts(paths@) =~= done.push(pid_freeze_text(uid, name@)));
        }
        i = i + 1;
        assert(crate::lists::texts(paths@) =~= first + frozen_group_files(uid, all.take(i as int)));
    }
    assert(all.take(all.len() as int) =~= all);
    paths
}

/// A thaw writes to every group of the app that is frozen on its own.
pub proof fn law_thaw_leaves_no_group_frozen(uid: u32, es: Seq<PidDirView>, i: int)
    requires
        0 <= i < es.len(),
        is_pid_dir(es[i].name),
        says_frozen(es[i].freeze),
    ensures
        frozen_group_files(uid, es).contains(pid_freeze_text(uid, es[i].name)),
    decreases es.len(),
{
    let w = frozen_group_files(uid, es);
    let k = frozen_group_files(uid, es.drop_last());
    if i < es.len() - 1 {
        law_thaw_leaves_no_group_frozen(uid, es.drop_last(), i);
        let j = choose|j: int| 0 <= j < k.len() && k[j] == pid_freeze_text(uid, es[i].name);
        assert(w[j] == pid_freeze_text(uid, es[i].name));
    } else {
        assert(w[w.len() - 1] == pid_freeze_text(uid, es[i].name));
    }
}

/// The plan for a package; nothing where the table does not know it.
pub fn freeze_pkg_keep_push(table: &NameMap<u32>, pkg: &str, d: &UidDir) -> (r: Option<
    KeepPushPlan,
>)
    ensures
        match value_of(table@, pkg@) {
            Some(uid) => r matches Some(p) && p@ == keep_push_of(uid, d@.entries),
            None => r is None,
        },
{
    match pkg_uid(table, pkg) {
        Some(uid) => Some(keep_push_plan(uid, d)),
        None => None,
    }
}

pub open spec fn names_pid(row: Seq<char>, pid: u32) -> bool {
    crate::text::trimmed(row) == dec(pid as nat)
}

/// Whether one of the rows names the process.
pub open spec fn some_row_names(rows: Seq<Seq<char>>, pid: u32) -> bool {
    exists|i: int| 0 <= i < rows.len() && names_pid(#[trigger] rows[i], pid)
}

/// Whether a list of processes names the process.
pub open spec fn lists_pid(procs: Option<Seq<char>>, pid: u32) -> bool {
    match procs {
        Some(t) => some_row_names(crate::text::line_texts(t), pid),
        None => false,
    }
}

fn owns_pid(procs: &Option<String>, pid: u32) -> (r: bool)
    ensures
        r == lists_pid(opt_view(*procs), pid),
{
    match procs {
        Some(t) => {
            let mut id: String = String::new();
            push_dec(&mut id, pid as u64);
            assert(id@ =~= dec(pid as nat));
            let v: Vec<char> = chars_of(t.as_str());
            let ls: Vec<&[char]> = lines(v.as_slice());
            let ghost all = crate::text::line_texts(t@);
            let mut i: usize = 0;
            while i < ls.len()
                invariant
                    i <= ls.len(),
                    opt_view(*procs) == Some(t@),
                    all == crate::text::line_texts(t@),
                    all == slice_texts(ls@),
                    id@ == dec(pid as nat),
                    forall|j: int|
                        0 <= j < i ==> !names_pid(#[trigger] all[j], pid),
                decreases ls.len() - i,
            {
                if same(trim(ls[i]), id.as_str()) {
                    assert(names_pid(all[i as int], pid));
                    assert(some_row_names(all, pid));
                    return true;
                }
                i = i + 1;
            }
            false
        },
        None => false,
    }
}

/// The processes that the groups below an app own: the group bears the process in its name
/// and still lists it, so that a reused number is not mistaken for it.
pub open spec fn owned_of(es: Seq<PidDirView>, push_only: bool) -> Seq<u32>
    decreases es.len(),
{
    if es.len() == 0 {
        Seq::empty()
    } else {
        let before = owned_of(es.drop_last(), push_only);
        let e = es.last();
        match dir_pid(e.name) {
            Some(pid) => if lists_pid(e.procs, pid) && (push_only ==> is_push_command(e.cmdline)) {
                before.push(pid)
            } else {
                before
            },
            None => before,
        }
    }
}

fn owned_pids(d: &UidDir, push_only: bool) -> (r: Vec<u32>)
    ensures
        r@ == owned_of(d@.entries, push_only),
{
    let ghost all = d@.entries;
    let mut out: Vec<u32> = Vec::new();
    let mut i: usize = 0;
    while i < d.entries.len()
        invariant
            i <= d.entries.len(),
            all == d@.entries,
            out@ == owned_of(all.take(i as int), push_only),
        decreases d.entries.len() - i,
    {
        assert(all.take(i + 1).drop_last() =~= all.take(i as int));
        assert(all.take(i + 1).last() == d.entries@[i as int]@);
        if let Some(pid) = pid_of_dir(d.entries[i].name.as_str()) {
            if owns_pid(&d.entries[i].procs, pid) && (!push_only || is_push_proc(
                &d.entries[i].cmdline,
            )) {
                out.push(pid);
            }
        }
        i = i + 1;
    }
    assert(all.take(all.len() as int) =~= all);
    out
}

/// The processes of an app.
pub fn uid_pids(d: &UidDir) -> (r: Vec<u32>)
    ensures
        r@ == owned_of(d@.entries, false),
{
    owned_pids(d, false)
}

/// The push processes of an app, to be killed.
pub fn kill_push_procs(d: &UidDir) -> (r: Vec<u32>)
    ensures
        r@ == owned_of(d@.entries, true),
{
    owned_pids(d, true)
}

/// What freezes a package and kills its push processes: the processes, and the write that
/// follows. Nothing where the table does not know the package.
pub fn freeze_pkg_kill_push(table: &NameMap<u32>, pkg: &str, d: &UidDir) -> (r: Option<
    (Vec<u32>, FreezeWrite),
>)
    ensures
        match value_of(table@, pkg@) {
            Some(uid) => r matches Some(p) && p.0@ == owned_of(d@.entries, true) && p.1.path@
                == uid_freeze_text(uid) && p.1.value@ == "1"@,
            None => r is None,
        },
{
    match pkg_uid(table, pkg) {
        Some(uid) => Some((kill_push_procs(d), freeze_uid(uid))),
        None => None,
    }
}

/// Only push processes of the app are killed: each bears a push name and is still listed by
/// its group.
pub proof fn law_only_push_is_killed(es: Seq<PidDirView>, i: int)
    requires
        0 <= i < owned_of(es, true).len(),
    ensures
        exists|j: int|
            0 <= j < es.len() && dir_pid((#[trigger] es[j]).name) == Some(owned_of(es, true)[i])
                && is_push_command(es[j].cmdline) && lists_pid(
                es[j].procs,
                owned_of(es, true)[i],
            ),
    decreases es.len(),
{
    let d = es.drop_last();
    let before = owned_of(d, true);
    if i < before.len() {
        law_only_push_is_killed(d, i);
        let j = choose|j: int|
            0 <= j < d.len() && dir_pid((#[trigger] d[j]).name) == Some(before[i])
                && is_push_command(d[j].cmdline) && lists_pid(d[j].procs, before[i]);
        assert(dir_pid(es[j].name) == Some(owned_of(es, true)[i]));
    } else {
        assert(dir_pid(es[es.len() - 1].name) == Some(owned_of(es, true)[i]));
    }
}

/// A freeze that keeps the push processes writes to no group of a push process.
pub proof fn law_push_is_spared(uid: u32, es: Seq<PidDirView>, i: int)
    requires
        0 <= i < keep_push_of(uid, es).paths.len(),
    ensures
        exists|j: int|
            0 <= j < es.len() && keep_push_of(uid, es).paths[i] == pid_freeze_text(
                uid,
                (#[trigger] es[j]).name,
            ) && !is_push_command(es[j].cmdline),
    decreases es.len(),
{
    let d = es.drop_last();
    let before = keep_push_of(uid, d).paths;
    if i < before.len() {
        law_push_is_spared(uid, d, i);
        let j = choose|j: int|
            0 <= j < d.len() && before[i] == pid_freeze_text(uid, (#[trigger] d[j]).name)
                && !is_push_command(d[j].cmdline);
        assert(keep_push_of(uid, es).paths[i] == pid_freeze_text(uid, es[j].name));
    } else {
        assert(keep_push_of(uid, es).paths[i] == pid_freeze_text(uid, es[es.len() - 1].name));
    }
}

// ---- Processes and the tunnel ----

/// The number in the first of two columns that there is.
pub open spec fn uid_column(w: Seq<Seq<char>>, column: int) -> Option<u32> {
    if column < w.len() {
        match crate::text::unsigned_of(w[column], u32::MAX as int) {
            Some(u) => Some(u as u32),
            None => None,
        }
    } else {
        None
    }
}

/// The effective uid of a process, or its real one where there is no second column. A line
/// `Uid:` without columns is passed over.
pub open spec fn effective_uid(rows: Seq<Seq<char>>) -> Option<u32>
    decreases rows.len(),
{
    if rows.len() == 0 {
        None
    } else if "Uid:"@.is_prefix_of(rows[0]) {
        let w = crate::text::words(rows[0].skip("Uid:"@.len() as int));
        if w.len() >= 2 {
            uid_column(w, 1)
        } else if w.len() == 1 {
            uid_column(w, 0)
        } else {
            effective_uid(rows.skip(1))
        }
    } else {
        effective_uid(rows.skip(1))
    }
}

/// The uid of a process by the text of its status.
pub fn pid_uid(status: &str) -> (r: Option<u32>)
    ensures
        r == effective_uid(crate::text::line_texts(status@)),
{
    let v: Vec<char> = chars_of(status);
    let rows: Vec<&[char]> = lines(v.as_slice());
    let ghost all = slice_texts(rows@);
    let mut i: usize = 0;
    assert(all.skip(0) =~= all);
    while i < rows.len()
        invariant
            i <= rows.len(),
            all == slice_texts(rows@),
            all == crate::text::line_texts(status@),
            effective_uid(all) == effective_uid(all.skip(i as int)),
        decreases rows.len() - i,
    {
        assert(all.skip(i as int)[0] == rows@[i as int]@);
        assert(all.skip(i as int).skip(1) =~= all.skip(i + 1));
        if let Some(rest) = strip_prefix(rows[i], "Uid:") {
            let w: Vec<&[char]> = split_words(rest);
            let ghost ws = slice_texts(w@);
            if w.len() >= 2 {
                assert(ws[1] == w@[1]@);
                return parse_u32(w[1]);
            }
            if w.len() == 1 {
                assert(ws[0] == w@[0]@);
                return parse_u32(w[0]);
            }
        }
        i = i + 1;
    }
    None
}

/// The real uid of a process: the first number in the first column of a line `Uid:`.
pub open spec fn real_uid(rows: Seq<Seq<char>>) -> Option<u32>
    decreases rows.len(),
{
    if rows.len() == 0 {
        None
    } else {
        let here = if "Uid:"@.is_prefix_of(rows[0]) {
            uid_column(crate::text::words(rows[0].skip("Uid:"@.len() as int)), 0)
        } else {
            None
        };
        if here is Some {
            here
        } else {
            real_uid(rows.skip(1))
        }
    }
}

pub fn status_real_uid(status: &str) -> (r: Option<u32>)
    ensures
        r == real_uid(crate::text::line_texts(status@)),
{
    let v: Vec<char> = chars_of(status);
    let rows: Vec<&[char]> = lines(v.as_slice());
    let ghost all = slice_texts(rows@);
    let mut i: usize = 0;
    assert(all.skip(0) =~= all);
    while i < rows.len()
        invariant
            i <= rows.len(),
            all == slice_texts(rows@),
            all == crate::text::line_texts(status@),
            real_uid(all) == real_uid(all.skip(i as int)),
        decreases rows.len() - i,
    {
        assert(all.skip(i as int)[0] == rows@[i as int]@);
        assert(all.skip(i as int).skip(1) =~= all.skip(i + 1));
        if let Some(rest) = strip_prefix(rows[i], "Uid:") {
            let w: Vec<&[char]> = split_words(rest);
            let ghost ws = slice_texts(w@);
            if w.len() >= 1 {
                assert(ws[0] == w@[0]@);
                if let Some(u) = parse_u32(w[0]) {
                    return Some(u);
                }
            }
        }
        i = i + 1;
    }
    None
}

/// A tunnel interface: `tun` and a number. `tunl0` and the like belong to the system.
pub open spec fn is_tun_name(s: Seq<char>) -> bool {
    "tun"@.is_prefix_of(s) && s.len() > 3 && forall|i: int|
        3 <= i < s.len() ==> crate::text::is_digit(#[trigger] s[i])
}

fn tun_name(s: &[char]) -> (r: bool)
    ensures
        r == is_tun_name(s@),
{
    if !(starts_with(s, "tun") && s.len() > 3) {
        return false;
    }
    let mut i: usize = 3;
    while i < s.len()
        invariant
            3 <= i <= s.len(),
            forall|j: int| 3 <= j < i ==> crate::text::is_digit(#[trigger] s@[j]),
        decreases s.len() - i,
    {
        if !digit(s[i]) {
            return false;
        }
        i = i + 1;
    }
    true
}

pub fn is_tun_iface(name: &str) -> (r: bool)
    ensures
        r == is_tun_name(name@),
{
    let v: Vec<char> = chars_of(name);
    tun_name(v.as_slice())
}

/// The name of the interface on a row of the device table: what stands before the colon.
pub open spec fn iface_of(row: Seq<char>) -> Seq<char> {
    let t = crate::text::trimmed_start(row);
    t.take(crate::text::index_of(t, ':'))
}

/// Whether a row of the device table is that of a tunnel.
pub open spec fn tells_tun(rows: Seq<Seq<char>>) -> bool {
    exists|i: int| 0 <= i < rows.len() && is_tun_name(iface_of(#[trigger] rows[i]))
}

/// Whether there is a tunnel, by the text of the device table.
pub fn has_tun_iface(text: Option<&str>) -> (r: bool)
    ensures
        r == match text {
            Some(s) => tells_tun(crate::text::line_texts(s@)),
            None => false,
        },
{
    let s: &str = match text {
        Some(s) => s,
        None => {
            return false;
        },
    };
    let v: Vec<char> = chars_of(s);
    let rows: Vec<&[char]> = lines(v.as_slice());
    let ghost all = slice_texts(rows@);
    let mut i: usize = 0;
    while i < rows.len()
        invariant
            i <= rows.len(),
            text == Some(s),
            all == slice_texts(rows@),
            all == crate::text::line_texts(s@),
            forall|j: int| 0 <= j < i ==> !is_tun_name(iface_of(#[trigger] all[j])),
        decreases rows.len() - i,
    {
        let t: &[char] = trim_start(rows[i]);
        let n: usize = find(t, ':');
        if tun_name(head(t, n)) {
            assert(is_tun_name(iface_of(all[i as int])));
            return true;
        }
        i = i + 1;
    }
    false
}

/// The target of a descriptor that holds the tunnel open.
pub open spec fn is_tun_link(s: Seq<char>) -> bool {
    "/dev/tun"@.is_prefix_of(s) || exists|i: int|
        0 <= i < s.len() && "anon_inode:[tun"@.is_prefix_of(#[trigger] s.skip(i))
}

pub fn is_tun_target(target: &str) -> (r: bool)
    ensures
        r == is_tun_link(target@),
{
    let v: Vec<char> = chars_of(target);
    let s: &[char] = v.as_slice();
    if starts_with(s, "/dev/tun") {
        return true;
    }
    let mut i: usize = 0;
    while i < s.len()
        invariant
            s@ == target@,
            i <= s.len(),
            !"/dev/tun"@.is_prefix_of(target@),
            forall|j: int| 0 <= j < i ==> !"anon_inode:[tun"@.is_prefix_of(#[trigger] s@.skip(j)),
        decreases s.len() - i,
    {
        if starts_with(tail(s, i), "anon_inode:[tun") {
            assert("anon_inode:[tun"@.is_prefix_of(target@.skip(i as int)));
            return true;
        }
        i = i + 1;
    }
    false
}

/// A process with the targets of its descriptors and its status.
#[derive(Debug)]
pub struct ProcFds {
    pub links: Vec<String>,
    pub status: Option<String>,
}

pub struct ProcFdsView {
    pub links: Seq<Seq<char>>,
    pub status: Option<Seq<char>>,
}

impl View for ProcFds {
    type V = ProcFdsView;

    open spec fn view(&self) -> ProcFdsView {
        ProcFdsView { links: crate::lists::texts(self.links@), status: opt_view(self.status) }
    }
}

pub open spec fn holds_tun(p: ProcFdsView) -> bool {
    exists|i: int| 0 <= i < p.links.len() && is_tun_link(#[trigger] p.links[i])
}

fn proc_holds_tun(p: &ProcFds) -> (r: bool)
    ensures
        r == holds_tun(p@),
{
    let mut i: usize = 0;
    while i < p.links.len()
        invariant
            i <= p.links.len(),
            forall|j: int| 0 <= j < i ==> !is_tun_link(#[trigger] p@.links[j]),
        decreases p.links.len() - i,
    {
        if is_tun_target(p.links[i].as_str()) {
            assert(is_tun_link(p@.links[i as int]));
            return true;
        }
        i = i + 1;
    }
    false
}

/// The uid of a process that holds the tunnel.
pub open spec fn tun_uid(p: ProcFdsView) -> Option<u32> {
    if holds_tun(p) {
        match p.status {
            Some(s) => effective_uid(crate::text::line_texts(s)),
            None => None,
        }
    } else {
        None
    }
}

/// The first uid that a process of the list holds the tunnel under.
pub open spec fn tun_owner(ps: Seq<ProcFdsView>) -> Option<u32>
    decreases ps.len(),
{
    if ps.len() == 0 {
        None
    } else if tun_uid(ps[0]) is Some {
        tun_uid(ps[0])
    } else {
        tun_owner(ps.skip(1))
    }
}

pub open spec fn fds_views(ps: Seq<ProcFds>) -> Seq<ProcFdsView> {
    Seq::new(ps.len(), |i: int| ps[i]@)
}

/// The owner of the VPN: the uid of the first process that holds the tunnel; none where
/// there is no tunnel.
pub fn scan_vpn_owner(has_tun: bool, procs: &Vec<ProcFds>) -> (r: Option<u32>)
    ensures
        r == (if has_tun {
            tun_owner(fds_views(procs@))
        } else {
            None
        }),
{
    if !has_tun {
        return None;
    }
    let ghost all = fds_views(procs@);
    let mut i: usize = 0;
    assert(all.skip(0) =~= all);
    while i < procs.len()
        invariant
            i <= procs.len(),
            has_tun,
            all == fds_views(procs@),
            tun_owner(all) == tun_owner(all.skip(i as int)),
        decreases procs.len() - i,
    {
        assert(all.skip(i as int)[0] == procs@[i as int]@);
        assert(all.skip(i as int).skip(1) =~= all.skip(i + 1));
        if proc_holds_tun(&procs[i]) {
            if let Some(s) = &procs[i].status {
                let u: Option<u32> = pid_uid(s.as_str());
                if u.is_some() {
                    return u;
                }
            }
        }
        i = i + 1;
    }
    None
}

/// The processes that directory names bear, by a prefix that each starts with.
pub open spec fn pids_in(names: Seq<Seq<char>>, prefix: Seq<char>) -> Seq<u32>
    decreases names.len(),
{
    if names.len() == 0 {
        Seq::empty()
    } else {
        let before = pids_in(names.drop_last(), prefix);
        let n = names.last();
        if prefix.is_prefix_of(n) {
            match crate::text::unsigned_of(n.skip(prefix.len() as int), u32::MAX as int) {
                Some(p) => before.push(p as u32),
                None => before,
            }
        } else {
            before
        }
    }
}

fn pids_of_names(names: &Vec<String>, prefix: &str) -> (r: Vec<u32>)
    ensures
        r@ == pids_in(crate::lists::texts(names@), prefix@),
{
    let ghost all = crate::lists::texts(names@);
    let mut out: Vec<u32> = Vec::new();
    let mut i: usize = 0;
    while i < names.len()
        invariant
            i <= names.len(),
            all == crate::lists::texts(names@),
            out@ == pids_in(all.take(i as int), prefix@),
        decreases names.len() - i,
    {
        assert(all.take(i + 1).drop_last() =~= all.take(i as int));
        let v: Vec<char> = chars_of(names[i].as_str());
        if let Some(rest) = strip_prefix(v.as_slice(), prefix) {
            if let Some(p) = parse_u32(rest) {
                out.push(p);
            }
        }
        i = i + 1;
    }
    assert(all.take(all.len() as int) =~= all);
    out
}

/// The processes to search for the tunnel: those of the app groups, or all processes where
/// there are none.
pub fn vpn_candidate_pids(groups: &Vec<String>, procs: &Vec<String>) -> (r: Vec<u32>)
    ensures
        r@ == ({
            let g = pids_in(crate::lists::texts(groups@), "pid_"@);
            if g.len() > 0 {
                g
            } else {
                plain_pids(crate::lists::texts(procs@))
            }
        }),
{
    let g: Vec<u32> = pids_of_names(groups, "pid_");
    if g.len() > 0 {
        g
    } else {
        plain_pids_of(procs)
    }
}

/// The processes that names of digits alone bear.
pub open spec fn plain_pids(names: Seq<Seq<char>>) -> Seq<u32>
    decreases names.len(),
{
    if names.len() == 0 {
        Seq::empty()
    } else {
        let before = plain_pids(names.drop_last());
        let n = names.last();
        if crate::text::is_numeral(n) && crate::text::digits_value(n) <= u32::MAX {
            before.push(crate::text::digits_value(n) as u32)
        } else {
            before
        }
    }
}

fn plain_pids_of(names: &Vec<String>) -> (r: Vec<u32>)
    ensures
        r@ == plain_pids(crate::lists::texts(names@)),
{
    let ghost all = crate::lists::texts(names@);
    let mut out: Vec<u32> = Vec::new();
    let mut i: usize = 0;
    while i < names.len()
        invariant
            i <= names.len(),
            all == crate::lists::texts(names@),
            out@ == plain_pids(all.take(i as int)),
        decreases names.len() - i,
    {
        assert(all.take(i + 1).drop_last() =~= all.take(i as int));
        let v: Vec<char> = chars_of(names[i].as_str());
        if v.len() > 0 && digit(v[0]) {
            if let Some(p) = parse_u32(v.as_slice()) {
                out.push(p);
            }
        } else {
            assert(!crate::text::is_numeral(v@));
        }
        i = i + 1;
    }
    assert(all.take(all.len() as int) =~= all);
    out
}

/// How long a search for the owner of the VPN stays valid, in nanoseconds.
pub const VPN_CACHE_TTL: u64 = 60_000_000_000;

/// The owner of the VPN, as last found.
#[derive(Debug, Clone, Copy)]
pub struct VpnCache {
    pub at: Option<u64>,
    pub owner: Option<u32>,
}

impl VpnCache {
    pub fn new() -> (r: Self)
        ensures
            r.at is None,
            r.owner is None,
    {
        VpnCache { at: None, owner: None }
    }

    pub open spec fn fresh(self, now: u64) -> bool {
        self.at matches Some(t) && crate::network::elapsed(now, t) < VPN_CACHE_TTL
    }

    /// Takes note of a search.
    pub fn store(&mut self, now: u64, owner: Option<u32>)
        ensures
            final(self).at == Some(now),
            final(self).owner == owner,
    {
        self.at = Some(now);
        self.owner = owner;
    }
}

/// The owner that was found, where that is recent enough; else it has to be searched.
pub fn vpn_owner_uid(cache: &VpnCache, now: u64) -> (r: Option<Option<u32>>)
    ensures
        r == (if cache.fresh(now) {
            Some(cache.owner)
        } else {
            None
        }),
{
    match cache.at {
        Some(t) => if time_since(now, t) < VPN_CACHE_TTL {
            Some(cache.owner)
        } else {
            None
        },
        None => None,
    }
}

/// Whether the uid owns the VPN.
pub fn is_vpn_owner(owner: Option<u32>, uid: u32) -> (r: bool)
    ensures
        r == (owner == Some(uid)),
{
    match owner {
        Some(u) => u == uid,
        None => false,
    }
}

// ---- The frozen apps of the last session ----

/// The package and uid that a row `package:uid` names.
pub open spec fn state_row(row: Seq<char>) -> Option<(Seq<char>, u32)> {
    let l = crate::text::trimmed(row);
    let p = crate::text::index_of(l, ':');
    if l.len() == 0 || p >= l.len() {
        None
    } else {
        match crate::text::unsigned_of(crate::text::trimmed(l.skip(p + 1)), u32::MAX as int) {
            Some(uid) => Some((crate::text::trimmed(l.take(p)), uid as u32)),
            None => None,
        }
    }
}

/// The packages and uids of the rows, in order.
pub open spec fn state_of(rows: Seq<Seq<char>>) -> Seq<(Seq<char>, u32)>
    decreases rows.len(),
{
    if rows.len() == 0 {
        Seq::empty()
    } else {
        match state_row(rows.last()) {
            Some(p) => state_of(rows.drop_last()).push(p),
            None => state_of(rows.drop_last()),
        }
    }
}

/// The views of a list of packages and uids.
pub open spec fn pair_views(v: Seq<(String, u32)>) -> Seq<(Seq<char>, u32)> {
    Seq::new(v.len(), |i: int| (v[i].0@, v[i].1))
}

/// Reads the frozen apps of the last session; none where there is no file.
pub fn read_frozen_state(text: Option<&str>) -> (r: Vec<(String, u32)>)
    ensures
        pair_views(r@) == match text {
            Some(s) => state_of(crate::text::line_texts(s@)),
            None => Seq::empty(),
        },
{
    let mut out: Vec<(String, u32)> = Vec::new();
    assert(pair_views(out@) =~= Seq::empty());
    let s: &str = match text {
        Some(s) => s,
        None => {
            return out;
        },
    };
    let v: Vec<char> = chars_of(s);
    let rows: Vec<&[char]> = lines(v.as_slice());
    let ghost all = slice_texts(rows@);
    let mut i: usize = 0;
    while i < rows.len()
        invariant
            i <= rows.len(),
            text == Some(s),
            all == slice_texts(rows@),
            all == crate::text::line_texts(s@),
            pair_views(out@) == state_of(all.take(i as int)),
        decreases rows.len() - i,
    {
        assert(all.take(i + 1).drop_last() =~= all.take(i as int));
        let l: &[char] = trim(rows[i]);
        let p: usize = find(l, ':');
        if p < l.len() {
            if let Some(uid) = parse_u32(trim(tail(l, p + 1))) {
                let ghost done = pair_views(out@);
                let name: String = string_of(trim(head(l, p)));
                out.push((name, uid));
                assert(pair_views(out@) =~= done.push((name@, uid)));
            }
        }
        i = i + 1;
    }
    assert(all.take(all.len() as int) =~= all);
    out
}

/// The rows `package:uid`.
pub open spec fn state_text(snap: Seq<(Seq<char>, u32)>) -> Seq<char>
    decreases snap.len(),
{
    if snap.len() == 0 {
        Seq::empty()
    } else {
        state_text(snap.drop_last()) + snap.last().0 + ":"@ + dec(snap.last().1 as nat) + "\n"@
    }
}

/// What is written to the state file.
pub fn frozen_state_text(snap: &Vec<(String, u32)>) -> (r: String)
    ensures
        r@ == state_text(pair_views(snap@)),
{
    let ghost all = pair_views(snap@);
    let mut out: String = String::new();
    let mut i: usize = 0;
    while i < snap.len()
        invariant
            i <= snap.len(),
            all == pair_views(snap@),
            out@ == state_text(all.take(i as int)),
        decreases snap.len() - i,
    {
        assert(all.take(i + 1).drop_last() =~= all.take(i as int));
        out.append(snap[i].0.as_str());
        out.append(":");
        push_dec(&mut out, snap[i].1 as u64);
        out.append("\n");
        i = i + 1;
    }
    assert(all.take(all.len() as int) =~= all);
    out
}

/// What is done at start with an app that was frozen in the last session.
#[derive(Debug, Clone, Copy, PartialEq, Eq, Structural)]
pub enum Reconcile {
    /// It is not frozen any more.
    Ignore,
    /// It is frozen and alive: it is managed again.
    Restore,
    /// It is frozen and dead: its group is thawed.
    Thaw,
}

pub fn startup_action(frozen: bool, alive: bool) -> (r: Reconcile)
    ensures
        r == (if !frozen {
            Reconcile::Ignore
        } else if alive {
            Reconcile::Restore
        } else {
            Reconcile::Thaw
        }),
{
    if !frozen {
        Reconcile::Ignore
    } else if alive {
        Reconcile::Restore
    } else {
        Reconcile::Thaw
    }
}

/// A name that can stand on a row of the state file: no colon, no line break, and no white
/// space at its ends.
pub open spec fn is_row_name(s: Seq<char>) -> bool {
    &&& crate::text::trimmed(s) == s
    &&& !s.contains(':')
    &&& !s.contains('\n')
}

proof fn lemma_state_row(name: Seq<char>, uid: u32)
    requires
        is_row_name(name),
    ensures
        state_row(name + ":"@ + dec(uid as nat)) == Some((name, uid)),
        !(name + ":"@ + dec(uid as nat)).contains('\n'),
        (name + ":"@ + dec(uid as nat)).last() != '\r',
{
    reveal_strlit(":");
    let d = dec(uid as nat);
    let row = name + ":"@ + d;
    crate::text::lemma_dec_value(uid as nat);
    crate::text::law_dec_reads_back(uid as nat, u32::MAX as int);
    assert(row.last() == d[d.len() - 1]);
    assert(crate::text::is_digit(d[d.len() - 1]));
    assert(row[name.len() as int] == ':');
    if name.len() > 0 {
        crate::text::lemma_trimmed_ends(name);
        assert(row[0] == name[0]);
    }
    crate::text::lemma_trimmed_fixed(row);
    assert forall|j: int| 0 <= j < name.len() implies row[j] != ':' by {
        assert(row[j] == name[j]);
        assert(name.contains(name[j]));
    }
    crate::text::lemma_index_of_at(row, ':', name.len() as int);
    assert(row.take(name.len() as int) =~= name);
    assert(row.skip(name.len() as int + 1) =~= d);
    if row.contains('\n') {
        let j = choose|j: int| 0 <= j < row.len() && row[j] == '\n';
        if j < name.len() {
            assert(name[j] == '\n');
            assert(name.contains('\n'));
        } else if j > name.len() {
            assert(crate::text::is_digit(d[j - name.len() - 1]));
        }
    }
}

proof fn lemma_state_text_end(snap: Seq<(Seq<char>, u32)>)
    ensures
        state_text(snap).len() == 0 || state_text(snap).last() == '\n',
{
    reveal_strlit("\n");
}

/// Reading the state file gives back the apps that were written to it.
pub proof fn law_state_reads_back(snap: Seq<(Seq<char>, u32)>)
    requires
        forall|i: int| 0 <= i < snap.len() ==> is_row_name((#[trigger] snap[i]).0),
    ensures
        state_of(crate::text::line_texts(state_text(snap))) == snap,
    decreases snap.len(),
{
    if snap.len() == 0 {
        assert(crate::text::line_texts(Seq::<char>::empty()) =~= Seq::empty());
        assert(state_of(Seq::<Seq<char>>::empty()) =~= snap);
    } else {
        let d = snap.drop_last();
        let (name, uid) = snap.last();
        assert(is_row_name(snap[snap.len() - 1].0));
        assert forall|i: int| 0 <= i < d.len() implies is_row_name((#[trigger] d[i]).0) by {
            assert(is_row_name(snap[i].0));
        }
        law_state_reads_back(d);
        lemma_state_row(name, uid);
        lemma_state_text_end(d);
        let row = name + ":"@ + dec(uid as nat);
        crate::text::lemma_lines_push(state_text(d), row);
        assert(state_text(snap) =~= state_text(d) + row + seq!['\n']) by {
            reveal_strlit("\n");
        }
        let ls = crate::text::line_texts(state_text(snap));
        assert(ls.drop_last() =~= crate::text::line_texts(state_text(d)));
        assert(ls.last() == row);
        assert(state_of(ls) =~= snap);
    }
}

} // verus!
