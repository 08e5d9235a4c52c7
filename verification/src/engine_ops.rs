//! How the engine talks to the outside: it hands out one operation at a time together with
//! the task that takes up the reply.

use vstd::prelude::*;
use crate::lists::texts;
use crate::names::NameMap;
use crate::network::{NetReading, ReadingView};
use crate::policy::PushMode;

verus! {

broadcast use {crate::lists::texts_len, crate::lists::texts_at};

/// What is known of the device when an event is handled.
#[derive(Debug)]
pub struct Env {
    /// Nanoseconds of a clock that only goes forward.
    pub now: u64,
    /// Seconds since the epoch.
    pub epoch: u64,
    /// Minute of the day, where it is known.
    pub minute: Option<u32>,
    /// Year, month and day, where they are known.
    pub today: Option<(u32, u32, u32)>,
    /// The uid that owns the VPN.
    pub vpn_uid: Option<u32>,
    /// The uids of the installed packages.
    pub table: NameMap<u32>,
}

pub struct EnvView {
    pub now: u64,
    pub epoch: u64,
    pub minute: Option<u32>,
    pub today: Option<(u32, u32, u32)>,
    pub vpn_uid: Option<u32>,
    pub table: Seq<(Seq<char>, u32)>,
}

impl View for Env {
    type V = EnvView;

    open spec fn view(&self) -> EnvView {
        EnvView {
            now: self.now,
            epoch: self.epoch,
            minute: self.minute,
            today: self.today,
            vpn_uid: self.vpn_uid,
            table: self.table@,
        }
    }
}

/// What was found out about a uid.
#[derive(Debug)]
pub struct Survey {
    /// Its traffic counters.
    pub reading: NetReading,
    /// Whether a process of it is alive.
    pub has_procs: bool,
    /// Whether something of it is frozen.
    pub has_frozen: bool,
}

pub struct SurveyView {
    pub reading: ReadingView,
    pub has_procs: bool,
    pub has_frozen: bool,
}

impl View for Survey {
    type V = SurveyView;

    open spec fn view(&self) -> SurveyView {
        SurveyView {
            reading: self.reading@,
            has_procs: self.has_procs,
            has_frozen: self.has_frozen,
        }
    }
}

/// An operation on the device.
#[derive(Debug)]
pub enum Op {
    /// Find out about a uid; answered by a survey.
    Survey(u32),
    /// Thaw a package and leave its protection from the memory killer in place; answered by
    /// a flag.
    ThawKeepOom(String),
    /// Thaw a package and undo its protection; answered by a flag.
    Thaw(String),
    /// Freeze a package; answered by a flag.
    Freeze(String, PushMode),
    /// Kill the processes of a uid; answered by their number.
    Discard(u32),
    /// The available memory in kB; answered by a number.
    Memory,
    /// The resident memory of uids in kB, 0 for the uid 0; answered by numbers.
    Resident(Vec<u32>),
    /// The kill priorities of the processes of a uid; answered by levels.
    Levels(u32),
    /// Whether the device has booted; answered by a flag.
    BootCompleted,
    /// Protect uids from the memory killer and thaw them.
    LockChain(Vec<u32>),
    /// Protect uids from the memory killer.
    Protect(Vec<u32>),
    /// Undo the protection of a package.
    RestoreOom(String),
    /// Write the list of frozen apps.
    SaveState(String),
    /// Append to the event file; answered by a flag.
    SaveEvents(String),
}

pub enum OpView {
    Survey(u32),
    ThawKeepOom(Seq<char>),
    Thaw(Seq<char>),
    Freeze(Seq<char>, PushMode),
    Discard(u32),
    Memory,
    Resident(Seq<u32>),
    Levels(u32),
    BootCompleted,
    LockChain(Seq<u32>),
    Protect(Seq<u32>),
    RestoreOom(Seq<char>),
    SaveState(Seq<char>),
    SaveEvents(Seq<char>),
}

impl View for Op {
    type V = OpView;

    open spec fn view(&self) -> OpView {
        match *self {
            Op::Survey(u) => OpView::Survey(u),
            Op::ThawKeepOom(p) => OpView::ThawKeepOom(p@),
            Op::Thaw(p) => OpView::Thaw(p@),
            Op::Freeze(p, m) => OpView::Freeze(p@, m),
            Op::Discard(u) => OpView::Discard(u),
            Op::Memory => OpView::Memory,
            Op::Resident(v) => OpView::Resident(v@),
            Op::Levels(u) => OpView::Levels(u),
            Op::BootCompleted => OpView::BootCompleted,
            Op::LockChain(v) => OpView::LockChain(v@),
            Op::Protect(v) => OpView::Protect(v@),
            Op::RestoreOom(p) => OpView::RestoreOom(p@),
            Op::SaveState(t) => OpView::SaveState(t@),
            Op::SaveEvents(t) => OpView::SaveEvents(t@),
        }
    }
}

/// The reply to an operation. A reply of another kind than the operation asks for counts as
/// a failure.
#[derive(Debug)]
pub enum Reply {
    Nothing,
    Flag(bool),
    Survey(Survey),
    Number(Option<u64>),
    Numbers(Vec<u64>),
    Levels(Vec<Option<i32>>),
}

pub enum ReplyView {
    Nothing,
    Flag(bool),
    Survey(SurveyView),
    Number(Option<u64>),
    Numbers(Seq<u64>),
    Levels(Seq<Option<i32>>),
}

impl View for Reply {
    type V = ReplyView;

    open spec fn view(&self) -> ReplyView {
        match *self {
            Reply::Nothing => ReplyView::Nothing,
            Reply::Flag(b) => ReplyView::Flag(b),
            Reply::Survey(s) => ReplyView::Survey(s@),
            Reply::Number(n) => ReplyView::Number(n),
            Reply::Numbers(v) => ReplyView::Numbers(v@),
            Reply::Levels(v) => ReplyView::Levels(v@),
        }
    }
}

impl ReplyView {
    pub open spec fn flag(self) -> bool {
        self matches ReplyView::Flag(b) && b
    }

    pub open spec fn number(self) -> Option<u64> {
        match self {
            ReplyView::Number(n) => n,
            _ => None,
        }
    }

    pub open spec fn numbers(self) -> Seq<u64> {
        match self {
            ReplyView::Numbers(v) => v,
            _ => Seq::empty(),
        }
    }

    pub open spec fn levels(self) -> Seq<Option<i32>> {
        match self {
            ReplyView::Levels(v) => v,
            _ => Seq::empty(),
        }
    }

    pub open spec fn survey(self) -> SurveyView {
        match self {
            ReplyView::Survey(s) => s,
            _ => SurveyView {
                reading: ReadingView { uid_stat: None, xt: None, bpf: None },
                has_procs: false,
                has_frozen: false,
            },
        }
    }
}

impl Reply {
    pub fn flag(&self) -> (r: bool)
        ensures
            r == self@.flag(),
    {
        match self {
            Reply::Flag(b) => *b,
            _ => false,
        }
    }

    pub fn number(&self) -> (r: Option<u64>)
        ensures
            r == self@.number(),
    {
        match self {
            Reply::Number(n) => *n,
            _ => None,
        }
    }

    pub fn numbers(self) -> (r: Vec<u64>)
        ensures
            r@ == self@.numbers(),
    {
        match self {
            Reply::Numbers(v) => v,
            _ => Vec::new(),
        }
    }

    pub fn levels(self) -> (r: Vec<Option<i32>>)
        ensures
            r@ == self@.levels(),
    {
        match self {
            Reply::Levels(v) => v,
            _ => Vec::new(),
        }
    }

    pub fn survey(self) -> (r: Survey)
        ensures
            r@ == self@.survey(),
    {
        match self {
            Reply::Survey(s) => s,
            _ => Survey { reading: NetReading::none(), has_procs: false, has_frozen: false },
        }
    }
}

/// Why a frozen app is discarded.
#[derive(Debug, Clone, Copy, PartialEq, Eq, Structural)]
pub enum DiscardReason {
    FrozenTimeout,
    /// A rule says so.
    Rule,
    MemWatermark,
    BootReclaim,
}

impl DiscardReason {
    pub open spec fn name(self) -> Seq<char> {
        match self {
            DiscardReason::FrozenTimeout => "frozen_timeout"@,
            DiscardReason::Rule => "rule_discard"@,
            DiscardReason::MemWatermark => "mem_watermark"@,
            DiscardReason::BootReclaim => "boot_reclaim"@,
        }
    }

    pub fn as_str(&self) -> (r: &'static str)
        ensures
            r@ == self.name(),
    {
        match self {
            DiscardReason::FrozenTimeout => "frozen_timeout",
            DiscardReason::Rule => "rule_discard",
            DiscardReason::MemWatermark => "mem_watermark",
            DiscardReason::BootReclaim => "boot_reclaim",
        }
    }
}

/// The points at which the engine takes up its work.
#[derive(Debug, Clone, Copy, PartialEq, Eq, Structural)]
pub enum TaskKind {
    /// Nothing is left to do.
    Finish,
    /// The new foreground app was to be thawed.
    FocusThaw,
    /// The new foreground app was looked at for something frozen.
    FocusProbe,
    /// What was frozen of the new foreground app was to be thawed.
    FocusResidual,
    /// The app that left the foreground was surveyed.
    LeaveSurvey,
    /// The app that left the foreground was to be frozen at once.
    LeaveFreeze,
    /// The app that left the foreground was to be frozen at once, since a rule says so.
    RuleFreeze,
    /// An app was to be thawed for a wakeup.
    WakeThaw,
    /// Thaw the next app that a new policy protects.
    ReloadNext,
    /// An app that a new policy protects was to be thawed.
    ReloadThaw,
    /// The system components were protected.
    TickBody,
    /// Thaw the next app, since the policy is off.
    DisabledNext,
    /// An app was to be thawed, since the policy is off.
    DisabledThaw,
    /// Forget everything, since the policy is off.
    DisabledClear,
    /// Look at the next app whose delay is over.
    GraceNext,
    /// An app whose delay is over was surveyed.
    GraceSurvey,
    /// An app whose delay is over was to be frozen.
    GraceFreeze,
    /// Look for frozen apps without processes.
    DeadBegin,
    /// Look at the next frozen app.
    DeadNext,
    /// A frozen app was surveyed.
    DeadSurvey,
    /// Forget the next frozen app without processes.
    DeadDrop,
    /// Discard the apps that were frozen for too long.
    TimeoutBegin,
    /// Discard the apps that a rule wants discarded.
    RuleBegin,
    /// Discard the next app.
    DiscardNext,
    /// An app to be discarded was surveyed.
    DiscardSurvey,
    /// An app was discarded.
    DiscardKill,
    /// Look at the memory.
    MemBegin,
    /// The available memory was read.
    MemFirst,
    /// The resident memory of the frozen apps was read.
    MemResident,
    /// The available memory was read again.
    MemAgain,
    /// Look whether the device has booted.
    BootBegin,
    /// It was read whether the device has booted.
    BootFlag,
    /// Reclaim after boot, where that is due.
    ReclaimBegin,
    /// Look at the next app to reclaim.
    ReclaimNext,
    /// The kill priorities of an app to reclaim were read.
    ReclaimLevels,
    /// Protect the frozen apps again.
    RelockBegin,
    /// Undo the protection of the foreground app.
    RestoreBegin,
    /// The protection of the foreground app was undone.
    Restored,
    /// Count the tick.
    CountTick,
    /// Look at the traffic of the next frozen app.
    NetNext,
    /// A frozen app was surveyed for its traffic.
    NetSurvey,
    /// Thaw the next app that has traffic.
    NetThawNext,
    /// An app that has traffic was to be thawed.
    NetThaw,
    /// Write the frozen apps to disk, where they changed.
    PersistBegin,
    /// Write new events to disk.
    EventsBegin,
    /// New events were to be written to disk.
    EventsSaved,
}

/// Where the engine goes on, and with what.
#[derive(Debug)]
pub struct Task {
    pub kind: TaskKind,
    /// The package at hand.
    pub pkg: String,
    /// The packages still to come.
    pub queue: Vec<String>,
    /// The packages found so far.
    pub found: Vec<String>,
    /// The uid at hand.
    pub uid: u32,
    pub why: DiscardReason,
    /// How many packages there were.
    pub total: u64,
}

pub struct TaskView {
    pub kind: TaskKind,
    pub pkg: Seq<char>,
    pub queue: Seq<Seq<char>>,
    pub found: Seq<Seq<char>>,
    pub uid: u32,
    pub why: DiscardReason,
    pub total: u64,
}

impl View for Task {
    type V = TaskView;

    open spec fn view(&self) -> TaskView {
        TaskView {
            kind: self.kind,
            pkg: self.pkg@,
            queue: texts(self.queue@),
            found: texts(self.found@),
            uid: self.uid,
            why: self.why,
            total: self.total,
        }
    }
}

/// A task that carries nothing.
pub open spec fn plain(kind: TaskKind) -> TaskView {
    TaskView {
        kind,
        pkg: Seq::empty(),
        queue: Seq::empty(),
        found: Seq::empty(),
        uid: 0,
        why: DiscardReason::FrozenTimeout,
        total: 0,
    }
}

/// A task about one package.
pub open spec fn about(kind: TaskKind, pkg: Seq<char>) -> TaskView {
    TaskView { pkg, ..plain(kind) }
}

/// A task over packages.
pub open spec fn over(kind: TaskKind, queue: Seq<Seq<char>>) -> TaskView {
    TaskView { queue, ..plain(kind) }
}

/// A task about one package with more to come.
pub open spec fn within_queue(kind: TaskKind, pkg: Seq<char>, queue: Seq<Seq<char>>) -> TaskView {
    TaskView { pkg, queue, ..plain(kind) }
}

impl Task {
    pub fn plain(kind: TaskKind) -> (r: Task)
        ensures
            r@ == plain(kind),
    {
        let r = Task {
            kind,
            pkg: String::new(),
            queue: Vec::new(),
            found: Vec::new(),
            uid: 0,
            why: DiscardReason::FrozenTimeout,
            total: 0,
        };
        assert(texts(r.queue@) =~= Seq::empty());
        assert(texts(r.found@) =~= Seq::empty());
        r
    }

    pub fn about(kind: TaskKind, pkg: &str) -> (r: Task)
        ensures
            r@ == about(kind, pkg@),
    {
        let mut t: Task = Task::plain(kind);
        t.pkg = String::from_str(pkg);
        t
    }

    pub fn over(kind: TaskKind, queue: Vec<String>) -> (r: Task)
        ensures
            r@ == over(kind, texts(queue@)),
    {
        let mut t: Task = Task::plain(kind);
        t.queue = queue;
        t
    }

    pub fn within_queue(kind: TaskKind, pkg: &str, queue: Vec<String>) -> (r: Task)
        ensures
            r@ == within_queue(kind, pkg@, texts(queue@)),
    {
        let mut t: Task = Task::plain(kind);
        t.pkg = String::from_str(pkg);
        t.queue = queue;
        t
    }

    pub fn with_found(self, found: Vec<String>) -> (r: Task)
        ensures
            r@ == (TaskView { found: texts(found@), ..self@ }),
    {
        let mut t: Task = self;
        t.found = found;
        t
    }

    pub fn with_why(self, why: DiscardReason) -> (r: Task)
        ensures
            r@ == (TaskView { why, ..self@ }),
    {
        let mut t: Task = self;
        t.why = why;
        t
    }

    pub fn with_uid(self, uid: u32) -> (r: Task)
        ensures
            r@ == (TaskView { uid, ..self@ }),
    {
        let mut t: Task = self;
        t.uid = uid;
        t
    }

    pub fn with_total(self, total: u64) -> (r: Task)
        ensures
            r@ == (TaskView { total, ..self@ }),
    {
        let mut t: Task = self;
        t.total = total;
        t
    }
}

/// What comes next.
#[derive(Debug)]
pub enum Step {
    /// The event is dealt with.
    Done,
    /// The engine goes on with the task; nothing is asked of the device.
    Next(Task),
    /// The operation is performed, and the task takes up the reply.
    Ask(Op, Task),
}

pub enum StepView {
    Done,
    Next(TaskView),
    Ask(OpView, TaskView),
}

impl View for Step {
    type V = StepView;

    open spec fn view(&self) -> StepView {
        match *self {
            Step::Done => StepView::Done,
            Step::Next(t) => StepView::Next(t@),
            Step::Ask(o, t) => StepView::Ask(o@, t@),
        }
    }
}

/// Takes the first name off a list.
pub fn pop_first(queue: &mut Vec<String>) -> (r: String)
    requires
        old(queue)@.len() > 0,
    ensures
        r@ == texts(old(queue)@)[0],
        texts(final(queue)@) == texts(old(queue)@).skip(1),
{
    let ghost before = texts(queue@);
    let r: String = queue.remove(0);
    assert(texts(queue@) =~= before.skip(1));
    r
}

} // verus!
