//! The line protocol: one command a line, one line of JSON for an answer.
//!
//! What has to be read or sent for a command is handed back to the caller together with the
//! answer.

use vstd::prelude::*;
use crate::engine_ops::{Step, StepView};
use crate::state::DaemonView;
use crate::text::{find, head, index_of, tail, trim, trimmed};

verus! {

/// A command and its argument: what stands before and after the first space.
pub open spec fn command_of(s: Seq<char>) -> (Seq<char>, Seq<char>) {
    let p = index_of(s, ' ');
    if p < s.len() {
        (s.take(p), trimmed(s.skip(p + 1)))
    } else {
        (s, Seq::empty())
    }
}

pub fn split_command<'a>(s: &'a [char]) -> (r: (&'a [char], &'a [char]))
    ensures
        (r.0@, r.1@) == command_of(s@),
{
    let p: usize = find(s, ' ');
    if p < s.len() {
        (head(s, p), trim(tail(s, p + 1)))
    } else {
        let rest: &[char] = tail(s, s.len());
        assert(rest@ =~= Seq::<char>::empty());
        (s, rest)
    }
}

/// What is left to do for a command.
#[derive(Debug)]
pub enum Handled {
    /// Nothing but to answer.
    Reply(String),
    /// To carry out what the engine asks for, and to answer then.
    Engine(Step, String),
    /// To answer and to keep the connection for events.
    Listen(String),
    /// To answer and to read the configuration anew.
    Reload(String),
    /// To send the bytes of the probe.
    SendDex,
    /// To send the bytes of a file to the listeners.
    PushDex(String),
    /// To read the policy anew and to answer what it is then.
    ReloadPolicy,
    /// To read the policy file, and to drop the preset with it.
    ClearPreset,
    /// To write out the advice and to answer with it.
    Analyze,
    /// To look at the device anew and to answer what it can do.
    Probe,
    /// To answer and to end.
    Stop(String),
}

pub enum HandledView {
    Reply(Seq<char>),
    Engine(StepView, Seq<char>),
    Listen(Seq<char>),
    Reload(Seq<char>),
    SendDex,
    PushDex(Seq<char>),
    ReloadPolicy,
    ClearPreset,
    Analyze,
    Probe,
    Stop(Seq<char>),
}

impl View for Handled {
    type V = HandledView;

    open spec fn view(&self) -> HandledView {
        match *self {
            Handled::Reply(s) => HandledView::Reply(s@),
            Handled::Engine(t, s) => HandledView::Engine(t@, s@),
            Handled::Listen(s) => HandledView::Listen(s@),
            Handled::Reload(s) => HandledView::Reload(s@),
            Handled::SendDex => HandledView::SendDex,
            Handled::PushDex(p) => HandledView::PushDex(p@),
            Handled::ReloadPolicy => HandledView::ReloadPolicy,
            Handled::ClearPreset => HandledView::ClearPreset,
            Handled::Analyze => HandledView::Analyze,
            Handled::Probe => HandledView::Probe,
            Handled::Stop(s) => HandledView::Stop(s@),
        }
    }
}

pub open spec fn ok_text() -> Seq<char> {
    "{\"ok\":1}"@
}

pub fn ok() -> (r: String)
    ensures
        r@ == ok_text(),
{
    String::from_str("{\"ok\":1}")
}

/// What became of a command.
pub type Answered = (DaemonView, HandledView);

} // verus!
