//! The host-interface data: session and packaging status events, their
//! transfer shapes, and the packaging name rules.

use vstd::prelude::*;
use crate::config::{Options, Meta};
use crate::strutil::{ends_with, str_ends_with, names_view};

verus! {

/// What the host needs to start a session.
#[derive(Clone, Debug)]
pub struct GuiSessionConfig {
    pub dataset_root: String,
    pub session_name: String,
    pub ffmpeg_path: String,
    pub target_hwnd: i64,
    pub options: Options,
    pub meta: Meta,
    pub cursor_debug: bool,
}

/// A status event a running session reports to the host.
#[derive(Clone, Debug)]
pub enum GuiStatus {
    Started { session_name: String },
    Frame { step_index: u64, qpc_ts: u64, is_foreground: bool },
    Finished { output_dir: String },
    Error { message: String },
}

/// A status event a packaging run reports to the host.
#[derive(Clone, Debug)]
pub enum GuiPackageStatus {
    Started { total_files: u64, total_bytes: u64 },
    File { index: u64, total_files: u64, bytes: u64, path: String },
    Finished { output_zip: String, deleted: bool },
    Error { message: String },
}

/// The transfer shape of a session status event.
#[derive(Clone, Debug)]
pub enum GuiStatusDto {
    Started { session_name: String },
    Frame { step_index: u64, qpc_ts: u64, is_foreground: bool },
    Finished { output_dir: String },
    Error { message: String },
}

/// The transfer shape of a packaging status event.
#[derive(Clone, Debug)]
pub enum GuiPackageStatusDto {
    Started { total_files: u64, total_bytes: u64 },
    File { index: u64, total_files: u64, bytes: u64, path: String },
    Finished { output_zip: String, deleted: bool },
    Error { message: String },
}

/// One window the host can pick as the capture target.
#[derive(Clone, Debug)]
pub struct WindowEntryDto {
    pub hwnd: i64,
    pub title: String,
}

/// A request to archive finished sessions.
#[derive(Clone, Debug)]
pub struct PackageRequest {
    pub dataset_root: String,
    pub session_names: Vec<String>,
    pub output_zip: String,
    pub delete_after: bool,
}

/// The transfer shape of a session status event, field for field.
pub open spec fn spec_map_status(status: GuiStatus) -> GuiStatusDto {
    match status {
        GuiStatus::Started { session_name } => GuiStatusDto::Started { session_name },
        GuiStatus::Frame { step_index, qpc_ts, is_foreground } => GuiStatusDto::Frame {
            step_index,
            qpc_ts,
            is_foreground,
        },
        GuiStatus::Finished { output_dir } => GuiStatusDto::Finished { output_dir },
        GuiStatus::Error { message } => GuiStatusDto::Error { message },
    }
}

/// Converts a session status event for transfer.
pub fn map_status(status: GuiStatus) -> (r: GuiStatusDto)
    ensures
        r == spec_map_status(status),
{
    match status {
        GuiStatus::Started { session_name } => GuiStatusDto::Started { session_name },
        GuiStatus::Frame { step_index, qpc_ts, is_foreground } => GuiStatusDto::Frame {
            step_index,
            qpc_ts,
            is_foreground,
        },
        GuiStatus::Finished { output_dir } => GuiStatusDto::Finished { output_dir },
        GuiStatus::Error { message } => GuiStatusDto::Error { message },
    }
}

/// The transfer shape of a packaging status event, field for field.
pub open spec fn spec_map_package_status(status: GuiPackageStatus) -> GuiPackageStatusDto {
    match status {
        GuiPackageStatus::Started { total_files, total_bytes } => GuiPackageStatusDto::Started {
            total_files,
            total_bytes,
        },
        GuiPackageStatus::File { index, total_files, bytes, path } => GuiPackageStatusDto::File {
            index,
            total_files,
            bytes,
            path,
        },
        GuiPackageStatus::Finished { output_zip, deleted } => GuiPackageStatusDto::Finished {
            output_zip,
            deleted,
        },
        GuiPackageStatus::Error { message } => GuiPackageStatusDto::Error { message },
    }
}

/// Converts a packaging status event for transfer.
pub fn map_package_status(status: GuiPackageStatus) -> (r: GuiPackageStatusDto)
    ensures
        r == spec_map_package_status(status),
{
    match status {
        GuiPackageStatus::Started { total_files, total_bytes } => GuiPackageStatusDto::Started {
            total_files,
            total_bytes,
        },
        GuiPackageStatus::File { index, total_files, bytes, path } => GuiPackageStatusDto::File {
            index,
            total_files,
            bytes,
            path,
        },
        GuiPackageStatus::Finished { output_zip, deleted } => GuiPackageStatusDto::Finished {
            output_zip,
            deleted,
        },
        GuiPackageStatus::Error { message } => GuiPackageStatusDto::Error { message },
    }
}

/// An in-progress session directory, never packaged.
pub open spec fn spec_is_tmp_name(name: Seq<char>) -> bool {
    ends_with(name, ".tmp"@)
}

/// Whether a directory name marks an in-progress session.
pub fn is_tmp_name(name: &str) -> (r: bool)
    ensures
        r == spec_is_tmp_name(name@),
{
    str_ends_with(name, ".tmp")
}

/// The names packaging keeps from a listing: everything that is not an
/// in-progress directory, in listing order.
pub open spec fn spec_keep_sessions_upto(names: Seq<Seq<char>>, n: int) -> Seq<Seq<char>>
    decreases n,
{
    if n <= 0 {
        Seq::empty()
    } else {
        spec_keep_sessions_upto(names, n - 1) + (if spec_is_tmp_name(names[n - 1]) {
            Seq::empty()
        } else {
            seq![names[n - 1]]
        })
    }
}

/// The session directories a request resolves to: the requested names as
/// given, or, with none requested, every listed directory that is not in
/// progress.
pub open spec fn spec_select_sessions(
    available: Seq<Seq<char>>,
    requested: Seq<Seq<char>>,
) -> Seq<Seq<char>> {
    if requested.len() > 0 {
        requested
    } else {
        spec_keep_sessions_upto(available, available.len() as int)
    }
}

/// Resolves a packaging request against a directory listing.
pub fn select_sessions(available: &Vec<String>, requested: &Vec<String>) -> (r: Vec<String>)
    ensures
        names_view(r@) == spec_select_sessions(names_view(available@), names_view(requested@)),
{
    if requested.len() > 0 {
        let mut out: Vec<String> = Vec::new();
        let n = requested.len();
        let mut i: usize = 0;
        while i < n
            invariant
                n == requested@.len(),
                i <= n,
                names_view(out@) =~= names_view(requested@).take(i as int),
            decreases n - i,
        {
            let ghost before = names_view(out@);
            out.push(requested[i].clone());
            proof {
                assert(names_view(out@) =~= before.push(names_view(requested@)[i as int]));
                assert(names_view(out@) =~= names_view(requested@).take(i as int + 1));
            }
            i = i + 1;
        }
        proof {
            assert(names_view(requested@).take(n as int) =~= names_view(requested@));
        }
        out
    } else {
        let ghost avail = names_view(available@);
        let mut out: Vec<String> = Vec::new();
        let n = available.len();
        let mut i: usize = 0;
        while i < n
            invariant
                n == available@.len(),
                avail == names_view(available@),
                i <= n,
                names_view(out@) =~= spec_keep_sessions_upto(avail, i as int),
            decreases n - i,
        {
            let ghost before = names_view(out@);
            if !is_tmp_name(available[i].as_str()) {
                out.push(available[i].clone());
                proof {
                    assert(names_view(out@) =~= before.push(avail[i as int]));
                }
            }
            proof {
                assert(names_view(out@) =~= spec_keep_sessions_upto(avail, i as int + 1));
            }
            i = i + 1;
        }
        out
    }
}

/// An archive entry name: the relative path with every backslash turned
/// forward.
pub open spec fn spec_zip_entry_name(rel: Seq<char>) -> Seq<char> {
    rel.map_values(|c: char| if c == '\\' { '/' } else { c })
}

/// Normalizes a relative path for the archive.
pub fn zip_entry_name(rel: &str) -> (r: String)
    ensures
        r@ == spec_zip_entry_name(rel@),
{
    let ghost target = spec_zip_entry_name(rel@);
    let n = rel.unicode_len();
    let mut out = String::new();
    let mut start: usize = 0;
    let mut i: usize = 0;
    while i < n
        invariant
            n == rel@.len(),
            start <= i <= n,
            target == spec_zip_entry_name(rel@),
            out@ =~= target.take(start as int),
            forall|j: int| start <= j < i ==> rel@[j] != '\\',
        decreases n - i,
    {
        let c = rel.get_char(i);
        if c == '\\' {
            if start < i {
                let run = rel.substring_char(start, i);
                out.append(run);
                proof {
                    assert(out@ =~= target.take(i as int)) by {
                        assert forall|j: int| 0 <= j < i implies (target.take(start as int)
                            + rel@.subrange(start as int, i as int))[j] == target[j] by {
                            if j >= start {
                                assert(rel@[j] != '\\');
                                assert(target[j] == rel@[j]);
                            }
                        }
                    }
                }
            }
            out.append("/");
            proof {
                reveal_strlit("/");
                assert(out@ =~= target.take(i as int + 1)) by {
                    assert(target[i as int] == '/');
                }
            }
            start = i + 1;
        }
        i = i + 1;
    }
    if start < n {
        let run = rel.substring_char(start, n);
        out.append(run);
        proof {
            assert(out@ =~= target.take(n as int)) by {
                assert forall|j: int| 0 <= j < n implies (target.take(start as int)
                    + rel@.subrange(start as int, n as int))[j] == target[j] by {
                    if j >= start {
                        assert(rel@[j] != '\\');
                        assert(target[j] == rel@[j]);
                    }
                }
            }
        }
    }
    proof {
        assert(target.take(n as int) =~= target);
    }
    out
}

} // verus!
