//! Changes in the configuration directory, as the kernel reports them.
//!
//! A report is a run of records: a descriptor, a mask, a cookie and a length, four bytes each
//! with the least significant first, and that many bytes for a name that ends at the first
//! zero.

use vstd::prelude::*;
use crate::bytes::{take_until_zero, until_zero, word, word_at};
use crate::state::{DaemonState, DaemonView};

verus! {

/// A change of a file.
#[derive(Debug)]
pub struct ConfChange {
    pub mask: u32,
    pub name: Vec<u8>,
}

pub struct ChangeView {
    pub mask: int,
    pub name: Seq<u8>,
}

impl View for ConfChange {
    type V = ChangeView;

    open spec fn view(&self) -> ChangeView {
        ChangeView { mask: self.mask as int, name: self.name@ }
    }
}

pub open spec fn change_views(v: Seq<ConfChange>) -> Seq<ChangeView> {
    Seq::new(v.len(), |i: int| v[i]@)
}

/// The changes of a report; records without a name report nothing.
pub open spec fn changes(b: Seq<u8>) -> Seq<ChangeView>
    decreases b.len(),
{
    if b.len() < 16 {
        Seq::empty()
    } else {
        let len = word(b, 12);
        if b.len() - 16 < len {
            Seq::empty()
        } else {
            let rest = changes(b.skip(16 + len));
            if len > 0 {
                seq![
                    ChangeView { mask: word(b, 4), name: until_zero(b.subrange(16, 16 + len)) },
                ] + rest
            } else {
                rest
            }
        }
    }
}

/// Reads a report.
pub fn conf_changes(b: &[u8]) -> (r: Vec<ConfChange>)
    ensures
        change_views(r@) == changes(b@),
{
    let mut out: Vec<ConfChange> = Vec::new();
    let mut at: usize = 0;
    assert(b@.skip(0) =~= b@);
    assert(change_views(out@) + changes(b@) =~= changes(b@));
    while b.len() - at >= 16
        invariant
            at <= b.len(),
            changes(b@) == change_views(out@) + changes(b@.skip(at as int)),
        decreases b.len() - at,
    {
        let ghost rest = b@.skip(at as int);
        let len: usize = word_at(b, at + 12) as usize;
        proof {
            assert(rest[12] == b@[at + 12] && rest[13] == b@[at + 13] && rest[14] == b@[at + 14]
                && rest[15] == b@[at + 15]);
            assert(rest[4] == b@[at + 4] && rest[5] == b@[at + 5] && rest[6] == b@[at + 6]
                && rest[7] == b@[at + 7]);
        }
        if b.len() - at - 16 < len {
            assert(change_views(out@) + changes(rest) =~= change_views(out@));
            return out;
        }
        let from: usize = at + 16;
        let to: usize = from + len;
        let ghost done = change_views(out@);
        assert(rest.skip(16 + len) =~= b@.skip(to as int));
        if len > 0 {
            let mask: u32 = word_at(b, at + 4);
            let name: Vec<u8> = take_until_zero(b, from, to);
            let ghost x = ChangeView { mask: mask as int, name: name@ };
            out.push(ConfChange { mask, name });
            proof {
                assert(rest.subrange(16, 16 + len) =~= b@.subrange(from as int, to as int));
                assert(change_views(out@) =~= done.push(x));
                assert(done + (seq![x] + changes(b@.skip(to as int))) =~= change_views(out@)
                    + changes(b@.skip(to as int)));
            }
        }
        at = to;
    }
    assert(change_views(out@) + changes(b@.skip(at as int)) =~= change_views(out@));
    out
}

pub open spec fn byte_texts() -> (Seq<u8>, Seq<u8>) {
    (seq![46u8, 116, 111, 109, 108], seq![46u8, 106, 115, 111, 110])
}

/// Whether a file can hold settings: its name ends in `.toml` or `.json`.
pub open spec fn holds_settings(name: Seq<u8>) -> bool {
    name.len() >= 5 && (name.skip(name.len() - 5) == byte_texts().0 || name.skip(name.len() - 5)
        == byte_texts().1)
}

/// Whether a change is one of settings and not of a temporary file.
pub fn is_policy_file(name: &[u8]) -> (r: bool)
    ensures
        r == holds_settings(name@),
{
    let n: usize = name.len();
    if n < 5 {
        return false;
    }
    let ghost end = name@.skip(n - 5);
    assert(end.len() == 5);
    let toml: bool = name[n - 5] == 46 && name[n - 4] == 116 && name[n - 3] == 111 && name[n - 2]
        == 109 && name[n - 1] == 108;
    let json: bool = name[n - 5] == 46 && name[n - 4] == 106 && name[n - 3] == 115 && name[n - 2]
        == 111 && name[n - 1] == 110;
    proof {
        assert(toml <==> end =~= byte_texts().0) by {
            if end =~= byte_texts().0 {
                assert(end[0] == 46 && end[1] == 116 && end[2] == 111 && end[3] == 109 && end[4]
                    == 108);
            }
        }
        assert(json <==> end =~= byte_texts().1) by {
            if end =~= byte_texts().1 {
                assert(end[0] == 46 && end[1] == 106 && end[2] == 115 && end[3] == 111 && end[4]
                    == 110);
            }
        }
    }
    toml || json
}

/// Counts that the configuration is to be read anew, and gives the count.
pub fn request_reload(state: &mut DaemonState) -> (r: u64)
    ensures
        r == old(state)@.config_reloads.wrapping_add(1),
        final(state)@ == (DaemonView { config_reloads: r, ..old(state)@ }),
{
    state.bump_config_reloads();
    state.config_reloads
}

} // verus!
