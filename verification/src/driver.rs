//! The compute side of the two task drivers.
//!
//! A download task reads the subprocess's output line by line: the monitor
//! here decodes each line into a progress tick or captures the printed
//! output path, and decides the terminal outcome once the stream ends. The
//! metadata driver's decision — which fetched formats are offered — also
//! lives here. The subprocess itself, and the racing of its output against
//! cancellation, belong to the caller.

use vstd::prelude::*;
use vstd::string::StrSliceExecFns;
use vstd::string::StringExecFns;

use crate::events::AppEvent;
use crate::format::{filter_video_formats, spec_video_formats, Format};
use crate::job::JobId;
use crate::progress::{spec_parse_progress, parse_progress, ProgressUpdate};
use crate::strutil::{contains_char, contains_char_exec, dec_str, trim_str, trimmed, u64_to_string};

verus! {

/// Why a download did not produce a file.
pub enum DownloadError {
    /// The caller observed the cancellation signal and killed the tool.
    Cancelled,
    /// The tool exited non-zero, with its exit code when the platform
    /// reports one.
    ToolExit(Option<i32>),
    /// The tool exited zero but never printed a resolvable output path:
    /// a violation of the invocation contract that must be surfaced.
    NoOutputPath,
    /// The tool could not be spawned; the caller's diagnostic text.
    Spawn(String),
}

/// The diagnostic text for each failure.
pub open spec fn spec_error_message(e: DownloadError) -> Seq<char> {
    match e {
        DownloadError::Cancelled => "Download cancelled"@,
        DownloadError::ToolExit(c) => "yt-dlp exited with code: "@ + match c {
            Some(v) => if v < 0 {
                "-"@ + dec_str((-(v as int)) as nat)
            } else {
                dec_str(v as nat)
            },
            None => "unknown"@,
        },
        DownloadError::NoOutputPath => "Could not determine output file path"@,
        DownloadError::Spawn(t) => t@,
    }
}

impl DownloadError {
    /// The failure rendered for the caller's `JobFailed` event.
    pub fn message(&self) -> (r: String)
        ensures
            r@ == spec_error_message(*self),
    {
        match self {
            DownloadError::Cancelled => String::from_str("Download cancelled"),
            DownloadError::ToolExit(c) => {
                let mut s = String::from_str("yt-dlp exited with code: ");
                match c {
                    Some(v) => {
                        if *v < 0 {
                            s.append("-");
                            let m: u64 = (-(*v as i64)) as u64;
                            let d = u64_to_string(m);
                            s.append(d.as_str());
                            proof {
                                assert(s@ =~= spec_error_message(*self));
                            }
                        } else {
                            let d = u64_to_string(*v as u64);
                            s.append(d.as_str());
                        }
                    },
                    None => {
                        s.append("unknown");
                    },
                }
                s
            },
            DownloadError::NoOutputPath => String::from_str(
                "Could not determine output file path",
            ),
            DownloadError::Spawn(t) => t.clone(),
        }
    }
}

/// A line that looks like a bare filesystem path: no leading bracketed
/// tag and at least one path separator.
pub open spec fn spec_is_path_line(s: Seq<char>) -> bool {
    !(s.len() > 0 && s[0] == '[') && contains_char(s, '/')
}

/// Folds the subprocess's output stream for one download: remembers the
/// last line that looked like the printed output path.
pub struct DownloadMonitor {
    pub final_path: Option<String>,
}

impl DownloadMonitor {
    pub fn new() -> (r: Self)
        ensures
            r.final_path is None,
    {
        DownloadMonitor { final_path: None }
    }

    /// Decodes one output line. A progress update is handed back to be
    /// emitted; a path-looking line replaces the remembered output path;
    /// anything else is tolerated silently.
    pub fn observe_line(&mut self, line: &str) -> (r: Option<ProgressUpdate>)
        ensures
            match spec_parse_progress(line@) {
                Some(v) => r matches Some(p) && p.percent_milli == v.0 && p.speed@ == v.1
                    && p.eta@ == v.2 && final(self).final_path == old(self).final_path,
                None => r is None && if spec_is_path_line(line@) {
                    final(self).final_path matches Some(p) && p@ == trimmed(line@)
                } else {
                    final(self).final_path == old(self).final_path
                },
            },
    {
        match parse_progress(line) {
            Some(p) => Some(p),
            None => {
                let n = line.unicode_len();
                let bracketed = n > 0 && line.get_char(0) == '[';
                if !bracketed && contains_char_exec(line, '/') {
                    self.final_path = Some(trim_str(line));
                }
                None
            },
        }
    }

    /// The terminal outcome once the stream has ended and the tool has
    /// exited: the captured path on a clean exit, an error otherwise. A
    /// clean exit without a captured path is a protocol violation, not a
    /// success.
    pub fn finish(self, exit_ok: bool, exit_code: Option<i32>) -> (r: Result<
        String,
        DownloadError,
    >)
        ensures
            !exit_ok ==> (r matches Err(e) && e == DownloadError::ToolExit(exit_code)),
            exit_ok ==> match self.final_path {
                Some(p) => r matches Ok(q) && q == p,
                None => r matches Err(e) && e is NoOutputPath,
            },
    {
        if !exit_ok {
            return Err(DownloadError::ToolExit(exit_code));
        }
        match self.final_path {
            Some(p) => Ok(p),
            None => Err(DownloadError::NoOutputPath),
        }
    }
}

/// What a successful metadata fetch reports: the title and the
/// video-capable formats, exactly as the caller's folding expects them.
pub fn metadata_event(id: JobId, title: String, formats: Vec<Format>) -> (r: AppEvent)
    ensures
        r matches AppEvent::FormatsReady { id: rid, title: rt, formats: rf } && rid == id && rt
            == title && rf@ == spec_video_formats(formats@),
{
    let kept = filter_video_formats(&formats);
    AppEvent::FormatsReady { id, title, formats: kept }
}

/// The fixed invocation for a metadata-only query: dump one structured
/// document, download nothing, keep quiet.
pub fn fetch_args(url: &str) -> (r: Vec<String>)
    ensures
        r@.len() == 4,
        r@[0]@ == "--dump-json"@,
        r@[1]@ == "--no-download"@,
        r@[2]@ == "--no-warnings"@,
        r@[3]@ == url@,
{
    let mut r: Vec<String> = Vec::new();
    r.push(String::from_str("--dump-json"));
    r.push(String::from_str("--no-download"));
    r.push(String::from_str("--no-warnings"));
    r.push(String::from_str(url));
    r
}

/// The fixed invocation for one download: line-buffered machine-readable
/// progress, the chosen format with a best-effort audio fallback, the
/// output template, and a final print of the resolved file path.
pub fn download_args(url: &str, format_id: &str, output_template: &str) -> (r: Vec<String>)
    ensures
        r@.len() == 10,
        r@[0]@ == "--newline"@,
        r@[1]@ == "--progress"@,
        r@[2]@ == "--no-colors"@,
        r@[3]@ == "-f"@,
        r@[4]@ == format_id@ + "+bestaudio/best"@,
        r@[5]@ == "-o"@,
        r@[6]@ == output_template@,
        r@[7]@ == "--print"@,
        r@[8]@ == "after_move:filepath"@,
        r@[9]@ == url@,
{
    let mut r: Vec<String> = Vec::new();
    r.push(String::from_str("--newline"));
    r.push(String::from_str("--progress"));
    r.push(String::from_str("--no-colors"));
    r.push(String::from_str("-f"));
    r.push(String::from_str(format_id).concat("+bestaudio/best"));
    r.push(String::from_str("-o"));
    r.push(String::from_str(output_template));
    r.push(String::from_str("--print"));
    r.push(String::from_str("after_move:filepath"));
    r.push(String::from_str(url));
    r
}

/// The output path template for a download: the configured directory and
/// the configured file template, separated as paths are.
pub fn join_output_template(dir: &str, template: &str) -> (r: String)
    ensures
        dir@.len() > 0 && dir@.last() == '/' ==> r@ == dir@ + template@,
        !(dir@.len() > 0 && dir@.last() == '/') ==> r@ == dir@ + "/"@ + template@,
{
    let n = dir.unicode_len();
    let mut s = String::from_str(dir);
    if !(n > 0 && dir.get_char(n - 1) == '/') {
        s.append("/");
    }
    s.append(template);
    s
}

} // verus!
