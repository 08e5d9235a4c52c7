//! The start of the daemon and its running: the files that say what runs, and the lines that
//! keep the listeners informed of what is frozen.

use vstd::prelude::*;
use crate::engine::stamped;
use crate::engine_ops::Env;
use crate::engine_state::noted_system;
use crate::events::{opt_view, EvAction, EvLevel};
use crate::json::{number_list, number_list_text};
use crate::paths::{RELEASE_NO, VERSION_NAME};
use crate::state::{DaemonState, DaemonView};
use crate::text::{dec, push_dec, str_eq};

verus! {

/// The mark of a daemon that is ready.
pub fn ready_marker(pid: u32) -> (r: String)
    ensures
        r@ == "{\"version_name\":\""@ + VERSION_NAME@ + "\",\"release_no\":"@ + dec(
            RELEASE_NO as nat,
        ) + ",\"pid\":"@ + dec(pid as nat) + "}"@,
{
    let mut s: String = String::from_str("{\"version_name\":\"");
    s.append(VERSION_NAME);
    s.append("\",\"release_no\":");
    push_dec(&mut s, RELEASE_NO as u64);
    s.append(",\"pid\":");
    push_dec(&mut s, pid as u64);
    s.append("}");
    s
}

/// The record of what is installed.
pub fn installed_meta() -> (r: String)
    ensures
        r@ == "{\"version_name\":\""@ + VERSION_NAME@ + "\",\"release_no\":"@ + dec(
            RELEASE_NO as nat,
        ) + "}"@,
{
    let mut s: String = String::from_str("{\"version_name\":\"");
    s.append(VERSION_NAME);
    s.append("\",\"release_no\":");
    push_dec(&mut s, RELEASE_NO as u64);
    s.append("}");
    s
}

/// What is printed when the version is asked for.
pub fn version_line() -> (r: String)
    ensures
        r@ == "sundownd "@ + VERSION_NAME@ + " (release_no "@ + dec(RELEASE_NO as nat)
            + ") by SunsetREN"@,
{
    let mut s: String = String::from_str("sundownd ");
    s.append(VERSION_NAME);
    s.append(" (release_no ");
    push_dec(&mut s, RELEASE_NO as u64);
    s.append(") by SunsetREN");
    s
}

/// What the log says at the start.
pub open spec fn start_message() -> Seq<char> {
    "v"@ + VERSION_NAME@ + " (release "@ + dec(RELEASE_NO as nat) + ")"@
}

impl DaemonState {
    /// Logs the start of the daemon.
    pub fn log_start(&mut self, env: &Env)
        ensures
            final(self)@ == (DaemonView {
                engine: noted_system(
                    stamped(old(self)@.engine, env@),
                    EvLevel::Report,
                    EvAction::System,
                    "daemon_start"@,
                    Some(start_message()),
                ),
                ..old(self)@
            }),
    {
        let mut s: String = String::from_str("v");
        s.append(VERSION_NAME);
        s.append(" (release ");
        push_dec(&mut s, RELEASE_NO as u64);
        s.append(")");
        self.engine.set_clock(env.epoch);
        self.engine.note_system(
            EvLevel::Report,
            EvAction::System,
            "daemon_start",
            Some(s.as_str()),
        );
    }

    /// Logs the end of the daemon.
    pub fn log_stop(&mut self, env: &Env)
        ensures
            final(self)@ == (DaemonView {
                engine: noted_system(
                    stamped(old(self)@.engine, env@),
                    EvLevel::Report,
                    EvAction::System,
                    "daemon_stop"@,
                    None,
                ),
                ..old(self)@
            }),
    {
        self.engine.set_clock(env.epoch);
        self.engine.note_system(EvLevel::Report, EvAction::System, "daemon_stop", None);
    }
}

/// What the listeners were told last.
#[derive(Debug)]
pub struct SyncState {
    pub frozen: String,
    pub candidates: String,
}

pub struct SyncView {
    pub frozen: Seq<char>,
    pub candidates: Seq<char>,
}

impl View for SyncState {
    type V = SyncView;

    open spec fn view(&self) -> SyncView {
        SyncView { frozen: self.frozen@, candidates: self.candidates@ }
    }
}

/// The line about the uids that are frozen; none where they are those of last time.
pub open spec fn frozen_line(s: SyncView, uids: Seq<u32>) -> Option<Seq<char>> {
    if number_list(uids) == s.frozen {
        None
    } else {
        Some("event frozen-sync uid="@ + number_list(uids) + "\n"@)
    }
}

/// The line about the uids that are managed; none where they are those of last time.
pub open spec fn candidate_line(s: SyncView, uids: Seq<u32>) -> Option<Seq<char>> {
    if number_list(uids) == s.candidates {
        None
    } else {
        Some("event candidate-sync uid="@ + number_list(uids) + "\n"@)
    }
}

/// Nothing is said twice: once the listeners know of some uids, the same uids are not sent
/// again, and at the start nothing is sent while there are none.
pub proof fn law_nothing_is_said_twice(s: SyncView, uids: Seq<u32>)
    ensures
        frozen_line(SyncView { frozen: number_list(uids), ..s }, uids) is None,
        candidate_line(SyncView { candidates: number_list(uids), ..s }, uids) is None,
        s.frozen == Seq::<char>::empty() ==> frozen_line(s, Seq::empty()) is None,
        s.candidates == Seq::<char>::empty() ==> candidate_line(s, Seq::empty()) is None,
{
    assert(number_list(Seq::empty()) =~= Seq::<char>::empty());
}

impl SyncState {
    pub fn new() -> (r: Self)
        ensures
            r@ == (SyncView { frozen: Seq::empty(), candidates: Seq::empty() }),
    {
        let r = SyncState { frozen: String::new(), candidates: String::new() };
        assert(r.frozen@ =~= Seq::<char>::empty());
        assert(r.candidates@ =~= Seq::<char>::empty());
        r
    }

    /// What is to be said about the uids that are frozen.
    pub fn frozen_sync(&mut self, uids: &Vec<u32>) -> (r: Option<String>)
        ensures
            opt_view(r) == frozen_line(old(self)@, uids@),
            final(self)@ == (SyncView { frozen: number_list(uids@), ..old(self)@ }),
    {
        let list: String = number_list_text(uids);
        if str_eq(list.as_str(), self.frozen.as_str()) {
            None
        } else {
            let mut s: String = String::from_str("event frozen-sync uid=");
            s.append(list.as_str());
            s.append("\n");
            self.frozen = list;
            Some(s)
        }
    }

    /// What is to be said about the uids that are managed.
    pub fn candidate_sync(&mut self, uids: &Vec<u32>) -> (r: Option<String>)
        ensures
            opt_view(r) == candidate_line(old(self)@, uids@),
            final(self)@ == (SyncView { candidates: number_list(uids@), ..old(self)@ }),
    {
        let list: String = number_list_text(uids);
        if str_eq(list.as_str(), self.candidates.as_str()) {
            None
        } else {
            let mut s: String = String::from_str("event candidate-sync uid=");
            s.append(list.as_str());
            s.append("\n");
            self.candidates = list;
            Some(s)
        }
    }
}

} // verus!
