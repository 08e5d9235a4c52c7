//! What the device can do: which freezer there is, and where. The readings are taken without
//! writing anything, and what could not be read counts as missing.

use vstd::prelude::*;
use crate::events::opt_view;
use crate::order::{lemma_text_lt_total, lemma_text_lt_transitive, text_less, text_lt};
use crate::text::{chars_of, starts_with};

verus! {

/// The kinds of freezer.
#[derive(Clone, Copy, Debug, PartialEq, Eq, Structural)]
pub enum FreezerLevel {
    /// There is none: processes are stopped by a signal.
    Missing,
    /// The freezer controller of cgroup version 1.
    V1,
    /// One group for each uid.
    UidV2,
    /// Only groups for single processes.
    PidV2,
}

impl FreezerLevel {
    pub open spec fn name(self) -> Seq<char> {
        match self {
            FreezerLevel::Missing => "none"@,
            FreezerLevel::V1 => "v1_freezer"@,
            FreezerLevel::UidV2 => "uid_v2"@,
            FreezerLevel::PidV2 => "pid_v2"@,
        }
    }

    pub fn as_str(&self) -> (r: &'static str)
        ensures
            r@ == self.name(),
    {
        match *self {
            FreezerLevel::Missing => "none",
            FreezerLevel::V1 => "v1_freezer",
            FreezerLevel::UidV2 => "uid_v2",
            FreezerLevel::PidV2 => "pid_v2",
        }
    }
}

/// What the device can do.
#[derive(Debug)]
pub struct Capability {
    pub freezer: FreezerLevel,
    /// Whether there is a unified hierarchy.
    pub cgroup_v2: bool,
    pub freezer_uid_path: Option<String>,
    pub freezer_pid_path: Option<String>,
    pub freezer_v1_path: Option<String>,
    /// Whether the kernel can bring pages back before an app is thawed.
    pub madvise_willneed: bool,
    /// Where traffic is read from.
    pub net_source: String,
    /// When this was read, in seconds since the epoch.
    pub probed_at: u64,
}

pub struct CapabilityView {
    pub freezer: FreezerLevel,
    pub cgroup_v2: bool,
    pub freezer_uid_path: Option<Seq<char>>,
    pub freezer_pid_path: Option<Seq<char>>,
    pub freezer_v1_path: Option<Seq<char>>,
    pub madvise_willneed: bool,
    pub net_source: Seq<char>,
    pub probed_at: u64,
}

impl View for Capability {
    type V = CapabilityView;

    open spec fn view(&self) -> CapabilityView {
        CapabilityView {
            freezer: self.freezer,
            cgroup_v2: self.cgroup_v2,
            freezer_uid_path: opt_view(self.freezer_uid_path),
            freezer_pid_path: opt_view(self.freezer_pid_path),
            freezer_v1_path: opt_view(self.freezer_v1_path),
            madvise_willneed: self.madvise_willneed,
            net_source: self.net_source@,
            probed_at: self.probed_at,
        }
    }
}

/// A directory of the cgroup tree.
#[derive(Debug)]
pub struct GroupDir {
    pub name: String,
    pub path: String,
    /// Whether it has a freeze file.
    pub freeze: bool,
}

pub struct GroupView {
    pub name: Seq<char>,
    pub path: Seq<char>,
    pub freeze: bool,
}

impl View for GroupDir {
    type V = GroupView;

    open spec fn view(&self) -> GroupView {
        GroupView { name: self.name@, path: self.path@, freeze: self.freeze }
    }
}

pub open spec fn group_views(v: Seq<GroupDir>) -> Seq<GroupView> {
    Seq::new(v.len(), |i: int| v[i]@)
}

pub open spec fn freeze_file(path: Seq<char>) -> Seq<char> {
    path + "/cgroup.freeze"@
}

fn freeze_file_of(path: &str) -> (r: String)
    ensures
        r@ == freeze_file(path@),
{
    let mut r: String = String::from_str(path);
    r.append("/cgroup.freeze");
    r
}

/// Whether a directory is a group of a uid that can be frozen.
pub open spec fn usable_uid(d: GroupView) -> bool {
    "uid_"@.is_prefix_of(d.name) && d.freeze
}

/// The usable directory with the smallest path.
pub open spec fn first_uid_dir(dirs: Seq<GroupView>) -> Option<int>
    decreases dirs.len(),
{
    if dirs.len() == 0 {
        None
    } else {
        let best = first_uid_dir(dirs.drop_last());
        if usable_uid(dirs.last()) && (best is None || text_lt(
            dirs.last().path,
            dirs[best->0].path,
        )) {
            Some(dirs.len() - 1)
        } else {
            best
        }
    }
}

/// The directory that is taken can be frozen, and no other that can has a smaller path. There
/// is one whenever any directory can be frozen.
pub proof fn law_first_uid_dir(dirs: Seq<GroupView>)
    ensures
        match first_uid_dir(dirs) {
            Some(i) => {
                &&& 0 <= i < dirs.len()
                &&& usable_uid(dirs[i])
                &&& forall|j: int|
                    0 <= j < dirs.len() && usable_uid(#[trigger] dirs[j]) ==> !text_lt(
                        dirs[j].path,
                        dirs[i].path,
                    )
            },
            None => forall|j: int| 0 <= j < dirs.len() ==> !usable_uid(#[trigger] dirs[j]),
        },
    decreases dirs.len(),
{
    if dirs.len() > 0 {
        let d = dirs.drop_last();
        law_first_uid_dir(d);
        let last = dirs.last();
        lemma_text_lt_total(last.path, last.path);
        assert forall|j: int| 0 <= j < d.len() implies d[j] == #[trigger] dirs[j] by {}
        match first_uid_dir(d) {
            Some(i) => {
                if usable_uid(last) && text_lt(last.path, d[i].path) {
                    assert forall|j: int|
                        0 <= j < dirs.len() && usable_uid(#[trigger] dirs[j]) implies !text_lt(
                        dirs[j].path,
                        last.path,
                    ) by {
                        if j < d.len() && text_lt(dirs[j].path, last.path) {
                            assert(usable_uid(d[j]));
                            lemma_text_lt_transitive(dirs[j].path, last.path, d[i].path);
                        }
                    }
                }
            },
            None => {},
        }
    }
}

fn find_uid_dir(dirs: &Vec<GroupDir>) -> (r: Option<usize>)
    ensures
        match r {
            Some(i) => i < dirs.len() && first_uid_dir(group_views(dirs@)) == Some(i as int),
            None => first_uid_dir(group_views(dirs@)) is None,
        },
{
    let ghost all = group_views(dirs@);
    let mut best: Option<usize> = None;
    let mut i: usize = 0;
    while i < dirs.len()
        invariant
            i <= dirs.len(),
            all == group_views(dirs@),
            match best {
                Some(k) => k < i && first_uid_dir(all.take(i as int)) == Some(k as int),
                None => first_uid_dir(all.take(i as int)) is None,
            },
        decreases dirs.len() - i,
    {
        let ghost upto = all.take(i + 1);
        assert(upto.drop_last() =~= all.take(i as int));
        assert(upto.last() == dirs@[i as int]@);
        let name: Vec<char> = chars_of(dirs[i].name.as_str());
        if dirs[i].freeze && starts_with(name.as_slice(), "uid_") {
            let smaller: bool = match best {
                Some(k) => {
                    assert(upto[k as int] == dirs@[k as int]@);
                    text_less(dirs[i].path.as_str(), dirs[k].path.as_str())
                },
                None => true,
            };
            if smaller {
                best = Some(i);
            }
        }
        i = i + 1;
    }
    assert(all.take(all.len() as int) =~= all);
    best
}

/// The freeze file of the first group of a process that can be frozen.
pub open spec fn first_pid_file(pids: Seq<GroupView>) -> Option<Seq<char>>
    decreases pids.len(),
{
    if pids.len() == 0 {
        None
    } else if "pid_"@.is_prefix_of(pids[0].name) && pids[0].freeze {
        Some(freeze_file(pids[0].path))
    } else {
        first_pid_file(pids.skip(1))
    }
}

fn find_pid_file(pids: &Vec<GroupDir>) -> (r: Option<String>)
    ensures
        opt_view(r) == first_pid_file(group_views(pids@)),
{
    let ghost all = group_views(pids@);
    let mut i: usize = 0;
    assert(all.skip(0) =~= all);
    while i < pids.len()
        invariant
            i <= pids.len(),
            all == group_views(pids@),
            first_pid_file(all) == first_pid_file(all.skip(i as int)),
        decreases pids.len() - i,
    {
        assert(all.skip(i as int)[0] == pids@[i as int]@);
        assert(all.skip(i as int).skip(1) =~= all.skip(i + 1));
        let name: Vec<char> = chars_of(pids[i].name.as_str());
        if pids[i].freeze && starts_with(name.as_slice(), "pid_") {
            return Some(freeze_file_of(pids[i].path.as_str()));
        }
        i = i + 1;
    }
    None
}

/// What was read from the device.
#[derive(Debug)]
pub struct ProbeReadings {
    pub cgroup_v2: bool,
    /// The directories that hold the groups of the apps.
    pub uid_dirs: Vec<GroupDir>,
    /// For each of those, the directories in it.
    pub pid_dirs: Vec<Vec<GroupDir>>,
    /// Whether the group of the first app uid has a freeze file.
    pub fallback: bool,
    /// Whether there is a freezer of version 1.
    pub v1: bool,
    pub madvise_willneed: bool,
    pub epoch: u64,
}

pub open spec fn fallback_path() -> Seq<char> {
    "/sys/fs/cgroup/apps/uid_10000/cgroup.freeze"@
}

/// The file by which a uid is frozen: that of the first usable directory, else that of the
/// first app uid.
pub open spec fn uid_file(dirs: Seq<GroupView>, fallback: bool) -> Option<Seq<char>> {
    match first_uid_dir(dirs) {
        Some(i) => Some(freeze_file(dirs[i].path)),
        None => if fallback {
            Some(fallback_path())
        } else {
            None
        },
    }
}

/// The file by which a single process is frozen, looked for where the uid file was found.
pub open spec fn pid_file(r: ProbeReadings) -> Option<Seq<char>> {
    match first_uid_dir(group_views(r.uid_dirs@)) {
        Some(i) => if i < r.pid_dirs@.len() {
            first_pid_file(group_views(r.pid_dirs@[i]@))
        } else {
            None
        },
        None => None,
    }
}

/// The freezer that is used: groups of uids before groups of processes before version 1.
pub open spec fn level_of(uid_ok: bool, pid_ok: bool, v1_ok: bool) -> FreezerLevel {
    if uid_ok {
        FreezerLevel::UidV2
    } else if pid_ok {
        FreezerLevel::PidV2
    } else if v1_ok {
        FreezerLevel::V1
    } else {
        FreezerLevel::Missing
    }
}

/// Which freezer there is. Only the files count, not whether the hierarchy is unified.
pub fn classify(cgroup_v2: bool, uid_ok: bool, pid_ok: bool, v1_ok: bool) -> (r: FreezerLevel)
    ensures
        r == level_of(uid_ok, pid_ok, v1_ok),
{
    if uid_ok {
        FreezerLevel::UidV2
    } else if pid_ok {
        FreezerLevel::PidV2
    } else if v1_ok {
        FreezerLevel::V1
    } else {
        FreezerLevel::Missing
    }
}

pub open spec fn probed(net_source: Seq<char>, r: ProbeReadings) -> CapabilityView {
    let uid_path = uid_file(group_views(r.uid_dirs@), r.fallback);
    let pid_path = pid_file(r);
    CapabilityView {
        freezer: level_of(uid_path is Some, pid_path is Some, r.v1),
        cgroup_v2: r.cgroup_v2,
        freezer_uid_path: uid_path,
        freezer_pid_path: pid_path,
        freezer_v1_path: if r.v1 {
            Some("/sys/fs/cgroup/freezer/freezer.state"@)
        } else {
            None
        },
        madvise_willneed: r.madvise_willneed,
        net_source,
        probed_at: r.epoch,
    }
}

/// What the device can do, by what was read from it.
pub fn probe(net_source: String, readings: &ProbeReadings) -> (r: Capability)
    ensures
        r@ == probed(net_source@, *readings),
{
    let mut uid_path: Option<String> = None;
    let mut pid_path: Option<String> = None;
    match find_uid_dir(&readings.uid_dirs) {
        Some(i) => {
            uid_path = Some(freeze_file_of(readings.uid_dirs[i].path.as_str()));
            if i < readings.pid_dirs.len() {
                pid_path = find_pid_file(&readings.pid_dirs[i]);
            }
        },
        None => {
            if readings.fallback {
                uid_path = Some(String::from_str("/sys/fs/cgroup/apps/uid_10000/cgroup.freeze"));
            }
        },
    }
    let freezer: FreezerLevel = classify(
        readings.cgroup_v2,
        uid_path.is_some(),
        pid_path.is_some(),
        readings.v1,
    );
    Capability {
        freezer,
        cgroup_v2: readings.cgroup_v2,
        freezer_uid_path: uid_path,
        freezer_pid_path: pid_path,
        freezer_v1_path: if readings.v1 {
            Some(String::from_str("/sys/fs/cgroup/freezer/freezer.state"))
        } else {
            None
        },
        madvise_willneed: readings.madvise_willneed,
        net_source,
        probed_at: readings.epoch,
    }
}

/// The freezer is named after a file that was found: where it is of the first kind there is a
/// file for a uid, and where it is none there is no file at all.
pub proof fn law_level_has_a_file(net_source: Seq<char>, r: ProbeReadings)
    ensures
        ({
            let c = probed(net_source, r);
            &&& c.freezer == FreezerLevel::UidV2 <==> c.freezer_uid_path is Some
            &&& c.freezer == FreezerLevel::PidV2 ==> c.freezer_pid_path is Some
            &&& c.freezer == FreezerLevel::V1 ==> c.freezer_v1_path is Some
            &&& c.freezer == FreezerLevel::Missing <==> c.freezer_uid_path is None
                && c.freezer_pid_path is None && c.freezer_v1_path is None
        }),
{
}

} // verus!
