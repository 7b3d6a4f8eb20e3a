//! How a headless replay run ends: its errors and its summary, and the dump
//! path that means standard output.

use std::path::PathBuf;

use vstd::prelude::*;
use vstd::string::{StrSliceExecFns, StringExecFns};

use crate::text::{dec, push_dec, push_str};
use crate::utils::script::ScriptError;

verus! {

#[verifier::external_type_specification]
#[verifier::external_body]
pub struct ExPathBuf(PathBuf);

#[verifier::external_type_specification]
#[verifier::external_body]
pub struct ExIoError(std::io::Error);

/// The dump path that means standard output rather than a file.
pub const STDOUT_PATH: &'static str = "-";

/// Whether a dump path names standard output: the whole path is `-`, so
/// `./-`, `runs/-` and `dash-` are all ordinary files.
pub fn is_stdout(path: &str) -> (b: bool)
    ensures
        b == (path@ == STDOUT_PATH@),
{
    proof {
        reveal_strlit("-");
    }
    let r = path.unicode_len() == 1 && path.get_char(0) == '-';
    proof {
        if r {
            assert(path@ =~= STDOUT_PATH@);
        }
    }
    r
}

/// How a replay run ended.
#[derive(Debug)]
pub enum RunError {
    /// The script did not parse.
    Script(ScriptError),
    /// A file could not be read or written.
    Io(PathBuf, std::io::Error),
    /// The decoder's sequence counter shows a hole.
    DroppedChunks(u64),
    /// Neither a script nor a duration bounds the run.
    Unbounded,
    /// A capture could not be written.
    Capture(String),
}

/// A failure of the run loop, before a dump path is attached.
#[derive(Debug)]
pub enum DriveError {
    Io(std::io::Error),
    Dropped(u64),
    Capture(String),
}

/// Lift a driver error into a [`RunError`], attaching the dump path to I/O
/// failures so the diagnostic names the file that could not be written.
pub fn to_run_error(e: DriveError, path: PathBuf) -> (r: RunError)
    ensures
        match e {
            DriveError::Io(_) => r matches RunError::Io(p, _) && p == path,
            DriveError::Dropped(n) => r == RunError::DroppedChunks(n),
            DriveError::Capture(m) => r matches RunError::Capture(rm) && rm == m,
        },
{
    match e {
        DriveError::Io(io) => RunError::Io(path, io),
        DriveError::Dropped(n) => RunError::DroppedChunks(n),
        DriveError::Capture(m) => RunError::Capture(m),
    }
}

/// Calls `Path::display` through `format!`: the path as text.  Nothing is
/// claimed of the text.
#[verifier::external_body]
fn path_text(p: &PathBuf) -> String {
    format!("{}", p.display())
}

/// Calls the `Display` of `std::io::Error` through `format!`: the error's
/// description.  Nothing is claimed of the text.
#[verifier::external_body]
fn io_error_text(e: &std::io::Error) -> String {
    format!("{}", e)
}

/// The message for chunks dropped in a run.
pub open spec fn dropped_message(n: nat) -> Seq<char> {
    dec(n) + " decode chunk(s) were dropped; the dump measures the harness, not the link"@
}

/// The message for a run with no bound.
pub open spec fn unbounded_message() -> Seq<char> {
    "a headless run needs --script or --duration to bound it"@
}

impl RunError {
    /// The diagnostic a failed run prints.
    pub fn message(&self) -> (s: String)
        ensures
            match self {
                RunError::Script(e) => s@ == "script: line "@ + dec(e.line as nat) + ": "@ + e.message@,
                RunError::DroppedChunks(n) => s@ == dropped_message(*n as nat),
                RunError::Unbounded => s@ == unbounded_message(),
                RunError::Capture(m) => s@ == "capture: "@ + m@,
                RunError::Io(_, _) => exists|path: Seq<char>, err: Seq<char>| s@ == path + ": "@ + err,
            },
    {
        match self {
            RunError::Script(e) => {
                let mut s = String::from_str("script: line ");
                push_dec(&mut s, e.line as u64);
                push_str(&mut s, ": ");
                push_str(&mut s, e.message.as_str());
                s
            },
            RunError::Io(p, e) => {
                let mut s = path_text(p);
                let ghost path = s@;
                push_str(&mut s, ": ");
                let t = io_error_text(e);
                push_str(&mut s, t.as_str());
                assert(s@ == path + ": "@ + t@);
                s
            },
            RunError::DroppedChunks(n) => {
                let mut s = String::new();
                push_dec(&mut s, *n);
                push_str(
                    &mut s,
                    " decode chunk(s) were dropped; the dump measures the harness, not the link",
                );
                s
            },
            RunError::Unbounded => String::from_str(
                "a headless run needs --script or --duration to bound it",
            ),
            RunError::Capture(m) => {
                let mut s = String::from_str("capture: ");
                push_str(&mut s, m.as_str());
                s
            },
        }
    }
}

/// What a replay run reports back.
#[derive(Debug)]
pub struct RunSummary {
    pub frames: u64,
    pub samples: u64,
    pub records: u64,
    /// Files a `pane` directive wrote, in the order taken.
    pub captures: Vec<PathBuf>,
}

/// How a run ends once its last frame is done and its summary line written:
/// a hole in the decoder's chunk numbering invalidates the run, so any
/// dropped chunk makes it fail with their number; otherwise it reports its
/// frames, samples, records and captures.  `records` is the dump's count
/// read after the summary line, so it includes that line, one more than the
/// count the summary itself carries.
pub fn finish_run(
    frames: u64,
    samples: u64,
    records: u64,
    dropped: u64,
    captures: Vec<PathBuf>,
) -> (r: Result<RunSummary, DriveError>)
    ensures
        dropped > 0 ==> (r matches Err(DriveError::Dropped(n)) && n == dropped),
        dropped == 0 ==> (r matches Ok(s) && s.frames == frames && s.samples == samples
            && s.records == records && s.captures@ == captures@),
{
    if dropped > 0 {
        return Err(DriveError::Dropped(dropped));
    }
    Ok(RunSummary { frames, samples, records, captures })
}

} // verus!
