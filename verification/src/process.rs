//! What the dashboard knows of one supervised process, and how its name and
//! paths are cut to fit a column.

use vstd::prelude::*;
use vstd::string::StringSliceAdditionalSpecFns;
use vstd::utf8::{decode_utf8, encode_utf8, is_char_boundary};

verus! {

/// Where a process writes its two log streams.
#[derive(Clone, Debug, PartialEq, Eq)]
pub struct LogPaths {
    pub out: String,
    pub error: String,
}

/// The byte offsets in the two log files at which the current run of a
/// process started to write.
#[derive(Clone, Copy, Debug, PartialEq, Eq, Structural)]
pub struct InitialLogAnchor {
    pub start_pos_out: u64,
    pub start_pos_error: u64,
}

/// A snapshot of one supervised process, as the registry hands it out. The
/// dashboard never changes one; it replaces the whole list.
#[derive(Clone, Debug, PartialEq, Eq)]
pub struct ProcessView {
    pub id: usize,
    pub pid: i64,
    pub name: String,
    pub running: bool,
    pub crashed: bool,
    pub script: String,
    pub path: String,
    /// When the process was started, in seconds since the Unix epoch.
    pub started: i64,
    pub restarts: u64,
    pub logs: LogPaths,
    pub initial_logs: InitialLogAnchor,
}

/// What a resource query told of a running process: CPU in hundredths of a
/// percent, resident memory in bytes.
#[derive(Clone, Copy, Debug, PartialEq, Eq, Structural)]
pub struct ResourceUsage {
    pub cpu_percent_scaled: u64,
    pub resident_bytes: u64,
}

/// What the dashboard says of a process.
#[derive(Clone, Copy, Debug, PartialEq, Eq, Structural)]
pub enum ProcessStatus {
    Online,
    Crashed,
    Stopped,
}

/// A process is online while it runs; one that does not run has crashed or
/// was stopped.
pub open spec fn status_of(p: ProcessView) -> ProcessStatus {
    if p.running {
        ProcessStatus::Online
    } else if p.crashed {
        ProcessStatus::Crashed
    } else {
        ProcessStatus::Stopped
    }
}

impl ProcessView {
    /// The status of the process.
    pub fn status(&self) -> (s: ProcessStatus)
        ensures
            s == status_of(*self),
    {
        if self.running {
            ProcessStatus::Online
        } else if self.crashed {
            ProcessStatus::Crashed
        } else {
            ProcessStatus::Stopped
        }
    }
}

impl ProcessStatus {
    /// The word for a status.
    pub fn label(&self) -> (r: &'static str)
        ensures
            r@ == match *self {
                ProcessStatus::Online => "online"@,
                ProcessStatus::Crashed => "crashed"@,
                ProcessStatus::Stopped => "stopped"@,
            },
    {
        match self {
            ProcessStatus::Online => "online",
            ProcessStatus::Crashed => "crashed",
            ProcessStatus::Stopped => "stopped",
        }
    }

    /// The word for a status in the process list, where all are equally
    /// wide.
    pub fn list_label(&self) -> (r: &'static str)
        ensures
            r@ == match *self {
                ProcessStatus::Online => "online "@,
                ProcessStatus::Crashed => "crashed"@,
                ProcessStatus::Stopped => "stopped"@,
            },
    {
        match self {
            ProcessStatus::Online => "online ",
            ProcessStatus::Crashed => "crashed",
            ProcessStatus::Stopped => "stopped",
        }
    }
}

/// What marks a text as cut.
pub open spec fn ellipsis() -> Seq<char> {
    seq!['.', '.', '.']
}

/// The last character boundary of `bytes` at or before `at`.
pub open spec fn boundary_at_or_before(bytes: Seq<u8>, at: int) -> int
    decreases at,
{
    if at <= 0 {
        0
    } else if is_char_boundary(bytes, at) {
        at
    } else {
        boundary_at_or_before(bytes, at - 1)
    }
}

/// `s` cut to fit `max` bytes. A text of at most `max` bytes is left as it
/// is. A longer one is cut after `max - 3` bytes, or before that where this
/// would split a character, and an ellipsis is put behind it.
pub open spec fn spec_truncate(s: Seq<char>, max: nat) -> Seq<char> {
    let bytes = encode_utf8(s);
    if bytes.len() <= max {
        s
    } else {
        let at = if max >= 3 {
            max - 3
        } else {
            0
        };
        decode_utf8(bytes.take(boundary_at_or_before(bytes, at))) + ellipsis()
    }
}

/// Cuts `s` to fit `max` bytes, as `spec_truncate` describes.
pub fn truncate_str(s: &str, max: usize) -> (r: String)
    ensures
        r@ == spec_truncate(s@, max as nat),
{
    let ghost bytes = s.spec_bytes();
    if s.as_bytes().len() > max {
        let start: usize = if max >= 3 {
            max - 3
        } else {
            0
        };
        let mut cut: usize = start;
        proof {
            vstd::utf8::encode_utf8_valid_utf8(s@);
        }
        while cut > 0 && !s.is_char_boundary(cut)
            invariant
                cut <= start,
                bytes == s.spec_bytes(),
                boundary_at_or_before(bytes, start as int) == boundary_at_or_before(
                    bytes,
                    cut as int,
                ),
            decreases cut,
        {
            cut -= 1;
        }
        assert(boundary_at_or_before(bytes, start as int) == cut);
        assert(is_char_boundary(bytes, cut as int));
        let (head, _) = s.split_at(cut);
        assert(head.spec_bytes() == bytes.take(cut as int));
        proof {
            vstd::utf8::encode_utf8_decode_utf8(head@);
            reveal_strlit("...");
        }
        assert(head@ == decode_utf8(bytes.take(cut as int)));
        let mut r = head.to_owned();
        r.append("...");
        assert("..."@ =~= ellipsis());
        r
    } else {
        s.to_owned()
    }
}

} // verus!
