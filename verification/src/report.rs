//! Lines of a report, each with the level it is to be shown at. The library
//! composes them; showing them is the caller's business.

use crate::text::{chars_of, push_all, string_of};
use vstd::prelude::*;

verus! {

/// How a line is to be shown.
#[derive(Debug, Clone, Copy, PartialEq, Eq, Structural)]
pub enum LogLevel {
    Plain,
    Success,
    Info,
    Warning,
    Error,
    Stage,
    Debug,
}

/// One line of a report.
#[derive(Debug, Clone, PartialEq, Eq)]
pub struct LogLine {
    pub level: LogLevel,
    pub text: String,
}

/// The lines as levels and texts.
pub open spec fn lines_view(lines: Seq<LogLine>) -> Seq<(LogLevel, Seq<char>)> {
    Seq::new(lines.len(), |i: int| (lines[i].level, lines[i].text@))
}

/// A line as it is written to the log file: the name of its level and a
/// colon before the text, nothing before a plain line.
pub open spec fn file_text_of(level: LogLevel, text: Seq<char>) -> Seq<char> {
    match level {
        LogLevel::Plain => text,
        LogLevel::Success => "SUCCESS: "@ + text,
        LogLevel::Info => "INFO: "@ + text,
        LogLevel::Warning => "WARNING: "@ + text,
        LogLevel::Error => "ERROR: "@ + text,
        LogLevel::Stage => "STAGE: "@ + text,
        LogLevel::Debug => "DEBUG: "@ + text,
    }
}

/// Whether a line of this level is shown on the console.
pub open spec fn shown_of(level: LogLevel, verbose: bool) -> bool {
    level != LogLevel::Debug || verbose
}

/// The text of a line in the log file.
pub fn file_text(level: LogLevel, text: &str) -> (r: String)
    ensures
        r@ == file_text_of(level, text@),
{
    let label: &str = match level {
        LogLevel::Plain => {
            return text.to_owned();
        },
        LogLevel::Success => "SUCCESS: ",
        LogLevel::Info => "INFO: ",
        LogLevel::Warning => "WARNING: ",
        LogLevel::Error => "ERROR: ",
        LogLevel::Stage => "STAGE: ",
        LogLevel::Debug => "DEBUG: ",
    };
    labelled_line(level, label, &chars_of(text)).text
}

/// Whether a line is shown on the console: a debug line only when verbose.
pub fn is_shown(level: LogLevel, verbose: bool) -> (r: bool)
    ensures
        r == shown_of(level, verbose),
{
    match level {
        LogLevel::Debug => verbose,
        _ => true,
    }
}

/// A line with the given level and text.
pub fn line(level: LogLevel, text: &str) -> (r: LogLine)
    ensures
        r.level == level,
        r.text@ == text@,
{
    LogLine { level, text: text.to_owned() }
}

/// A line made of a prefix and a text after it.
pub fn labelled_line(level: LogLevel, label: &str, text: &Vec<char>) -> (r: LogLine)
    ensures
        r.level == level,
        r.text@ == label@ + text@,
{
    let mut out: Vec<char> = Vec::new();
    push_all(&mut out, &chars_of(label));
    push_all(&mut out, text);
    assert(out@ =~= label@ + text@);
    LogLine { level, text: string_of(&out) }
}

/// Which tools for audio fingerprints are installed.
#[derive(Debug, Clone, Copy, PartialEq, Eq)]
pub struct FingerprintAvailability {
    pub fpcalc_available: bool,
    pub ffmpeg_available: bool,
}

/// The lines that report which fingerprint tools are there.
pub open spec fn availability_lines_of(a: FingerprintAvailability) -> Seq<(LogLevel, Seq<char>)> {
    seq![
        if a.fpcalc_available {
            (LogLevel::Success, "fpcalc (chromaprint) is available - fingerprinting enabled"@)
        } else {
            (LogLevel::Warning, "fpcalc not found - install chromaprint for better performance"@)
        },
        if a.ffmpeg_available {
            (LogLevel::Success, "ffmpeg is available - can decode audio for fingerprinting"@)
        } else {
            (LogLevel::Error, "ffmpeg not found - fingerprinting will not work!"@)
        },
    ] + if a.fpcalc_available || a.ffmpeg_available {
        Seq::<(LogLevel, Seq<char>)>::empty()
    } else {
        seq![
            (
                LogLevel::Error,
                "Audio fingerprinting is disabled. Install fpcalc or ffmpeg + libchromaprint."@,
            ),
        ]
    }
}

impl FingerprintAvailability {
    /// Whether fingerprints can be made at all.
    pub fn is_available(&self) -> (r: bool)
        ensures
            r == (self.fpcalc_available || self.ffmpeg_available),
    {
        self.fpcalc_available || self.ffmpeg_available
    }

    /// The lines that report which tools are there.
    pub fn print_status(&self) -> (r: Vec<LogLine>)
        ensures
            lines_view(r@) == availability_lines_of(*self),
    {
        let mut out: Vec<LogLine> = Vec::new();
        if self.fpcalc_available {
            out.push(
                line(LogLevel::Success, "fpcalc (chromaprint) is available - fingerprinting enabled"),
            );
        } else {
            out.push(
                line(
                    LogLevel::Warning,
                    "fpcalc not found - install chromaprint for better performance",
                ),
            );
        }
        if self.ffmpeg_available {
            out.push(
                line(LogLevel::Success, "ffmpeg is available - can decode audio for fingerprinting"),
            );
        } else {
            out.push(line(LogLevel::Error, "ffmpeg not found - fingerprinting will not work!"));
        }
        if !self.is_available() {
            out.push(
                line(
                    LogLevel::Error,
                    "Audio fingerprinting is disabled. Install fpcalc or ffmpeg + libchromaprint.",
                ),
            );
        }
        assert(lines_view(out@) =~= availability_lines_of(*self));
        out
    }
}

} // verus!
