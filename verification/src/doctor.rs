//! The decisions of the agent's one-shot diagnostic (`--check`): which checks failed,
//! how many plugins are ready, what it prints of the token and of long messages, and the
//! exit code. The checks themselves reach the network and the disk, so the caller runs
//! them and reports each outcome here.

use vstd::prelude::*;
use vstd::string::*;
use vstd::utf8::{decode_utf8, is_char_boundary};
use crate::agent::PluginStatus;
use crate::text::{byte_prefix, byte_suffix};

verus! {

/// The longest plugin message, in bytes, that the diagnostic prints whole.
pub const MESSAGE_LIMIT: usize = 80;

/// The running tally of a diagnostic.
pub struct DoctorReport {
    /// No check has failed so far.
    pub all_ok: bool,
    /// Plugins that reported usage.
    pub ready: usize,
    /// Plugins that reported an error (no credentials, not installed).
    pub skipped: usize,
}

impl DoctorReport {
    /// A diagnostic before any check.
    pub fn new() -> (r: Self)
        ensures
            r.all_ok,
            r.ready == 0,
            r.skipped == 0,
    {
        DoctorReport { all_ok: true, ready: 0, skipped: 0 }
    }

    /// Records whether one check passed.
    pub fn record_check(&mut self, passed: bool)
        ensures
            final(self).all_ok == (old(self).all_ok && passed),
            final(self).ready == old(self).ready,
            final(self).skipped == old(self).skipped,
    {
        if !passed {
            self.all_ok = false;
        }
    }

    /// Counts one plugin's readiness.
    pub fn record_plugin(&mut self, status: &PluginStatus)
        requires
            old(self).ready < usize::MAX,
            old(self).skipped < usize::MAX,
        ensures
            final(self).all_ok == old(self).all_ok,
            final(self).ready == old(self).ready + if *status is Ready {
                1int
            } else {
                0int
            },
            final(self).skipped == old(self).skipped + if *status is Error {
                1int
            } else {
                0int
            },
    {
        match status {
            PluginStatus::Ready { .. } => {
                self.ready = self.ready + 1;
            },
            PluginStatus::Error(_) => {
                self.skipped = self.skipped + 1;
            },
        }
    }

    /// The diagnostic explains how to make a plugin ready when none is.
    pub fn needs_setup_hint(&self) -> (r: bool)
        ensures
            r == (self.ready == 0),
    {
        self.ready == 0
    }

    /// The process exit code: 0 when every check passed, 1 otherwise.
    pub fn exit_code(&self) -> (r: i32)
        ensures
            r == if self.all_ok {
                0i32
            } else {
                1i32
            },
    {
        if self.all_ok {
            0
        } else {
            1
        }
    }
}

/// A plugin message as the diagnostic prints it: its first `MESSAGE_LIMIT` bytes when
/// it is longer. The cut must fall between characters.
pub fn short_message(msg: &str) -> (r: &str)
    requires
        msg.spec_bytes().len() > MESSAGE_LIMIT ==> is_char_boundary(
            msg.spec_bytes(),
            MESSAGE_LIMIT as int,
        ),
    ensures
        r@ == if msg.spec_bytes().len() > MESSAGE_LIMIT {
            decode_utf8(msg.spec_bytes().subrange(0, MESSAGE_LIMIT as int))
        } else {
            msg@
        },
{
    if msg.as_bytes().len() > MESSAGE_LIMIT {
        byte_prefix(msg, MESSAGE_LIMIT)
    } else {
        msg
    }
}

/// The length, in bytes, of the head that the diagnostic shows of a token.
pub open spec fn token_head_len(len: nat) -> int {
    if len < 8 {
        len as int
    } else {
        8
    }
}

/// Where the tail that the diagnostic shows of a token starts.
pub open spec fn token_tail_start(len: nat) -> int {
    if len < 4 {
        0
    } else {
        len - 4
    }
}

/// A token as the diagnostic prints it: its first eight bytes, `...`, its last four.
/// Both cuts must fall between characters.
pub fn mask_token(token: &str) -> (r: String)
    requires
        is_char_boundary(token.spec_bytes(), token_head_len(token.spec_bytes().len())),
        is_char_boundary(token.spec_bytes(), token_tail_start(token.spec_bytes().len())),
    ensures
        r@ == decode_utf8(
            token.spec_bytes().subrange(0, token_head_len(token.spec_bytes().len())),
        ) + "..."@ + decode_utf8(
            token.spec_bytes().subrange(
                token_tail_start(token.spec_bytes().len()),
                token.spec_bytes().len() as int,
            ),
        ),
{
    let n = token.as_bytes().len();
    let head_len = if n < 8 {
        n
    } else {
        8
    };
    let tail_start = if n < 4 {
        0
    } else {
        n - 4
    };
    let head = byte_prefix(token, head_len);
    let tail = byte_suffix(token, tail_start);
    let mut out = head.to_owned();
    out.append("...");
    out.append(tail);
    out
}

} // verus!
