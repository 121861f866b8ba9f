//! The decision rule shared by every consolidation mode, and the counters
//! that a run reports.

use crate::report::{labelled_line, lines_view, LogLevel, LogLine};
use crate::text::{chars_of, decimal_of, push_all, push_decimal, string_of};
use vstd::prelude::*;

verus! {

/// Counters of one run, with the files that were skipped and why.
#[derive(Debug, Clone)]
pub struct OperationStats {
    pub processed: usize,
    pub succeeded: usize,
    pub skipped: usize,
    pub errors: usize,
    /// `(file, reason)` for every skip, in the order recorded.
    pub skipped_files: Vec<(String, String)>,
}

/// Options that most operations take.
#[derive(Debug, Clone)]
pub struct CommonOptions {
    pub dry_run: bool,
    pub verbose: bool,
    pub input_dir: String,
    pub output_dir: Option<String>,
}

/// What happens to an incoming file.
#[derive(Debug, Clone, Copy, PartialEq, Eq, Structural)]
pub enum Decision {
    /// Nothing is in its place: it is added.
    Add,
    /// It replaces an existing file of lower quality.
    Upgrade { existing: u32 },
    /// An existing file of the same quality stays.
    SkipSame,
    /// An existing file of higher quality stays.
    SkipLower { existing: u32 },
}

/// The filesystem action that carries out a decision.
#[derive(Debug, Clone, Copy, PartialEq, Eq, Structural)]
pub enum FileAction {
    Copy,
    Move,
    Nothing,
}

/// How handling one file ended.
#[derive(Debug, Clone, Copy, PartialEq, Eq, Structural)]
pub enum Outcome {
    Succeeded,
    Skipped,
    Failed,
}

/// The decision for an incoming file of quality `n` against the quality of
/// the file already in its place, if there is one.
pub open spec fn decision_of(n: u32, existing: Option<u32>) -> Decision {
    match existing {
        None => Decision::Add,
        Some(e) => if n > e {
            Decision::Upgrade { existing: e }
        } else if n == e {
            Decision::SkipSame
        } else {
            Decision::SkipLower { existing: e }
        },
    }
}

/// Whether a decision leaves the destination as it is.
pub open spec fn is_skip(d: Decision) -> bool {
    d is SkipSame || d is SkipLower
}

/// The reason recorded with a skip.
pub open spec fn reason_of(n: u32, d: Decision) -> Option<Seq<char>> {
    match d {
        Decision::SkipSame => Some("same quality ("@ + decimal_of(n as nat) + ")"@),
        Decision::SkipLower { existing } => Some(
            "lower quality ("@ + decimal_of(n as nat) + " < "@ + decimal_of(existing as nat)
                + ")"@,
        ),
        _ => None,
    }
}

/// The action for a decision. An upgrade always copies, so that the source
/// tree stays whole even when files are otherwise moved.
pub open spec fn action_of(d: Decision, do_move: bool) -> FileAction {
    match d {
        Decision::Add => if do_move {
            FileAction::Move
        } else {
            FileAction::Copy
        },
        Decision::Upgrade { .. } => FileAction::Copy,
        _ => FileAction::Nothing,
    }
}

/// The quality found at the destination once a decision has been carried
/// out.
pub open spec fn existing_after(n: u32, existing: Option<u32>) -> Option<u32> {
    match decision_of(n, existing) {
        Decision::Add => Some(n),
        Decision::Upgrade { .. } => Some(n),
        _ => existing,
    }
}

/// How a file ends, given its decision and whether its action succeeded.
pub open spec fn outcome_of(d: Decision, action_ok: bool) -> Outcome {
    if is_skip(d) {
        Outcome::Skipped
    } else if action_ok {
        Outcome::Succeeded
    } else {
        Outcome::Failed
    }
}

/// The lines that list the skipped files with their reasons.
pub open spec fn skipped_lines_of(files: Seq<(String, String)>) -> Seq<(LogLevel, Seq<char>)> {
    Seq::new(
        files.len(),
        |i: int| (LogLevel::Plain, "    - "@ + files[i].0@ + ": "@ + files[i].1@),
    )
}

/// The summary of a run, line by line.
pub open spec fn summary_of(stats: OperationStats, name: Seq<char>) -> Seq<(LogLevel, Seq<char>)> {
    seq![
        (LogLevel::Plain, "\n"@ + name + " Summary:"@),
        (LogLevel::Plain, "  Processed: "@ + decimal_of(stats.processed as nat)),
        (LogLevel::Success, "  Succeeded: "@ + decimal_of(stats.succeeded as nat)),
    ] + (if stats.skipped > 0 {
        seq![(LogLevel::Warning, "  Skipped: "@ + decimal_of(stats.skipped as nat))] + (
        if stats.skipped_files@.len() > 0 {
            seq![(LogLevel::Plain, "  Skipped files:"@)] + skipped_lines_of(stats.skipped_files@)
        } else {
            Seq::<(LogLevel, Seq<char>)>::empty()
        })
    } else {
        Seq::<(LogLevel, Seq<char>)>::empty()
    }) + (if stats.errors > 0 {
        seq![(LogLevel::Error, "  Errors: "@ + decimal_of(stats.errors as nat))]
    } else {
        Seq::<(LogLevel, Seq<char>)>::empty()
    })
}

fn counter_line(level: LogLevel, label: &str, n: usize) -> (r: LogLine)
    ensures
        r.level == level,
        r.text@ == label@ + decimal_of(n as nat),
{
    let mut digits: Vec<char> = Vec::new();
    push_decimal(&mut digits, n as u64);
    assert(digits@ =~= decimal_of(n as nat));
    labelled_line(level, label, &digits)
}

fn skipped_lines(files: &Vec<(String, String)>) -> (r: Vec<LogLine>)
    ensures
        lines_view(r@) == skipped_lines_of(files@),
{
    let mut out: Vec<LogLine> = Vec::new();
    let mut i: usize = 0;
    while i < files.len()
        invariant
            i <= files.len(),
            out@.len() == i,
            forall|k: int|
                0 <= k < i ==> (#[trigger] out@[k]).level == LogLevel::Plain && out@[k].text@
                    == "    - "@ + files@[k].0@ + ": "@ + files@[k].1@,
        decreases files.len() - i,
    {
        let mut text: Vec<char> = Vec::new();
        push_all(&mut text, &chars_of(files[i].0.as_str()));
        push_all(&mut text, &chars_of(": "));
        push_all(&mut text, &chars_of(files[i].1.as_str()));
        let l = labelled_line(LogLevel::Plain, "    - ", &text);
        assert(l.text@ =~= "    - "@ + files@[i as int].0@ + ": "@ + files@[i as int].1@);
        out.push(l);
        i += 1;
    }
    assert(lines_view(out@) =~= skipped_lines_of(files@));
    out
}

/// Decides between add, upgrade and skip.
pub fn decide(new_quality: u32, existing: Option<u32>) -> (r: Decision)
    ensures
        r == decision_of(new_quality, existing),
{
    match existing {
        None => Decision::Add,
        Some(e) => {
            if new_quality > e {
                Decision::Upgrade { existing: e }
            } else if new_quality == e {
                Decision::SkipSame
            } else {
                Decision::SkipLower { existing: e }
            }
        },
    }
}

/// The reason to record for a skip; `None` for a decision that is no skip.
pub fn skip_reason(new_quality: u32, decision: Decision) -> (r: Option<String>)
    ensures
        match r {
            Some(s) => reason_of(new_quality, decision) == Some(s@),
            None => reason_of(new_quality, decision) is None,
        },
{
    match decision {
        Decision::SkipSame => {
            let mut out: Vec<char> = Vec::new();
            push_all(&mut out, &chars_of("same quality ("));
            push_decimal(&mut out, new_quality as u64);
            push_all(&mut out, &chars_of(")"));
            assert(out@ =~= "same quality ("@ + decimal_of(new_quality as nat) + ")"@);
            Some(string_of(&out))
        },
        Decision::SkipLower { existing } => {
            let mut out: Vec<char> = Vec::new();
            push_all(&mut out, &chars_of("lower quality ("));
            push_decimal(&mut out, new_quality as u64);
            push_all(&mut out, &chars_of(" < "));
            push_decimal(&mut out, existing as u64);
            push_all(&mut out, &chars_of(")"));
            assert(out@ =~= "lower quality ("@ + decimal_of(new_quality as nat) + " < "@
                + decimal_of(existing as nat) + ")"@);
            Some(string_of(&out))
        },
        _ => None,
    }
}

/// Chooses the filesystem action for a decision.
pub fn action_for(decision: Decision, do_move: bool) -> (r: FileAction)
    ensures
        r == action_of(decision, do_move),
{
    match decision {
        Decision::Add => {
            if do_move {
                FileAction::Move
            } else {
                FileAction::Copy
            }
        },
        Decision::Upgrade { .. } => FileAction::Copy,
        _ => FileAction::Nothing,
    }
}

impl OperationStats {
    /// No outcome is counted twice and none without its file: the outcomes
    /// never exceed the files processed, and every skip has its reason.
    pub open spec fn wf(&self) -> bool {
        &&& self.succeeded + self.skipped + self.errors <= self.processed
        &&& self.skipped_files@.len() == self.skipped
    }

    /// Counters at zero.
    pub fn new() -> (r: Self)
        ensures
            r.wf(),
            r.processed == 0,
            r.succeeded == 0,
            r.skipped == 0,
            r.errors == 0,
            r.skipped_files@.len() == 0,
    {
        OperationStats {
            processed: 0,
            succeeded: 0,
            skipped: 0,
            errors: 0,
            skipped_files: Vec::new(),
        }
    }

    /// Whether one more file can be recorded: the counters are consistent
    /// and have room.
    pub fn can_record(&self) -> (r: bool)
        ensures
            r == (self.wf() && self.processed < usize::MAX),
    {
        self.processed < usize::MAX && self.succeeded <= self.processed && self.skipped
            <= self.processed - self.succeeded && self.errors <= self.processed - self.succeeded
            - self.skipped && self.skipped_files.len() == self.skipped
    }

    /// Counts one skip and keeps its file and reason. The counters stay
    /// consistent where the file has been counted as processed before.
    pub fn add_skipped(&mut self, file: String, reason: String)
        requires
            old(self).skipped < usize::MAX,
        ensures
            old(self).wf() && old(self).succeeded + old(self).skipped + old(self).errors < old(
                self,
            ).processed ==> final(self).wf(),
            final(self).skipped == old(self).skipped + 1,
            final(self).skipped_files@ == old(self).skipped_files@.push((file, reason)),
            final(self).processed == old(self).processed,
            final(self).succeeded == old(self).succeeded,
            final(self).errors == old(self).errors,
    {
        self.skipped += 1;
        self.skipped_files.push((file, reason));
    }

    /// The summary of the run under the given name: the counters, and the
    /// skipped files with their reasons.
    pub fn print_summary(&self, operation_name: &str) -> (r: Vec<LogLine>)
        ensures
            lines_view(r@) == summary_of(*self, operation_name@),
    {
        let mut out: Vec<LogLine> = Vec::new();
        let mut title: Vec<char> = Vec::new();
        push_all(&mut title, &chars_of(operation_name));
        push_all(&mut title, &chars_of(" Summary:"));
        let first = labelled_line(LogLevel::Plain, "\n", &title);
        assert(first.text@ =~= "\n"@ + operation_name@ + " Summary:"@);
        out.push(first);
        out.push(counter_line(LogLevel::Plain, "  Processed: ", self.processed));
        out.push(counter_line(LogLevel::Success, "  Succeeded: ", self.succeeded));
        if self.skipped > 0 {
            out.push(counter_line(LogLevel::Warning, "  Skipped: ", self.skipped));
            if self.skipped_files.len() > 0 {
                out.push(crate::report::line(LogLevel::Plain, "  Skipped files:"));
                let mut listed = skipped_lines(&self.skipped_files);
                let ghost before = out@;
                let ghost added = listed@;
                out.append(&mut listed);
                assert(out@ =~= before + added);
                assert(lines_view(out@) =~= lines_view(before) + skipped_lines_of(
                    self.skipped_files@,
                ));
            }
        }
        let ghost middle = lines_view(out@);
        if self.errors > 0 {
            out.push(counter_line(LogLevel::Error, "  Errors: ", self.errors));
            assert(lines_view(out@) =~= middle.push(
                (LogLevel::Error, "  Errors: "@ + decimal_of(self.errors as nat)),
            ));
        }
        assert(lines_view(out@) =~= summary_of(*self, operation_name@));
        out
    }

    /// Counts one processed file together with how it ended, which keeps the
    /// counters consistent. A skip is recorded with its reason.
    pub fn record(&mut self, file: String, outcome: Outcome, reason: String)
        requires
            old(self).wf(),
            old(self).processed < usize::MAX,
        ensures
            final(self).wf(),
            final(self).processed == old(self).processed + 1,
            final(self).succeeded == old(self).succeeded + if outcome == Outcome::Succeeded {
                1int
            } else {
                0int
            },
            final(self).errors == old(self).errors + if outcome == Outcome::Failed {
                1int
            } else {
                0int
            },
            final(self).skipped == old(self).skipped + if outcome == Outcome::Skipped {
                1int
            } else {
                0int
            },
            final(self).skipped_files@ == if outcome == Outcome::Skipped {
                old(self).skipped_files@.push((file, reason))
            } else {
                old(self).skipped_files@
            },
    {
        self.processed += 1;
        match outcome {
            Outcome::Succeeded => {
                self.succeeded += 1;
            },
            Outcome::Failed => {
                self.errors += 1;
            },
            Outcome::Skipped => {
                self.add_skipped(file, reason);
            },
        }
    }

    /// Counts one processed file by its decision: a skip with the reason of
    /// the decision rule, anything else as a success or an error according
    /// to whether its action succeeded. In a dry run the action is replaced
    /// by a log line and counts as a success.
    pub fn record_decision(
        &mut self,
        file: String,
        new_quality: u32,
        decision: Decision,
        action_ok: bool,
    ) -> (r: Outcome)
        requires
            old(self).wf(),
            old(self).processed < usize::MAX,
        ensures
            r == outcome_of(decision, action_ok),
            final(self).wf(),
            final(self).processed == old(self).processed + 1,
            final(self).succeeded == old(self).succeeded + if r == Outcome::Succeeded {
                1int
            } else {
                0int
            },
            final(self).errors == old(self).errors + if r == Outcome::Failed {
                1int
            } else {
                0int
            },
            final(self).skipped == old(self).skipped + if r == Outcome::Skipped {
                1int
            } else {
                0int
            },
            r == Outcome::Skipped ==> final(self).skipped_files@.len() == old(
                self,
            ).skipped_files@.len() + 1 && final(self).skipped_files@.last().0 == file
                && reason_of(new_quality, decision) == Some(
                final(self).skipped_files@.last().1@,
            ),
            r != Outcome::Skipped ==> final(self).skipped_files@ == old(self).skipped_files@,
    {
        match skip_reason(new_quality, decision) {
            Some(reason) => {
                self.record(file, Outcome::Skipped, reason);
                Outcome::Skipped
            },
            None => {
                let outcome = if action_ok {
                    Outcome::Succeeded
                } else {
                    Outcome::Failed
                };
                self.record(file, outcome, String::new());
                outcome
            },
        }
    }
}

impl Default for OperationStats {
    fn default() -> (r: Self)
        ensures
            r.wf(),
            r.processed == 0,
            r.succeeded == 0,
            r.skipped == 0,
            r.errors == 0,
            r.skipped_files@.len() == 0,
    {
        OperationStats::new()
    }
}

/// Running the same file against the destination that its own decision left
/// behind changes nothing more: the second decision is a skip.
pub proof fn lemma_second_run_skips(n: u32, existing: Option<u32>)
    ensures
        is_skip(decision_of(n, existing_after(n, existing))),
        existing_after(n, existing_after(n, existing)) == existing_after(n, existing),
        !is_skip(decision_of(n, existing)) ==> decision_of(n, existing_after(n, existing))
            == Decision::SkipSame,
{
}

/// The destination never loses quality: what is found there after a
/// decision is at least what was there before and at least the incoming
/// file where that was added or upgraded.
pub proof fn lemma_never_downgrades(n: u32, existing: Option<u32>)
    ensures
        existing_after(n, existing) is Some,
        existing is Some ==> existing_after(n, existing)->0 >= existing->0,
        existing_after(n, existing)->0 >= n,
{
}

/// An upgrade is never carried out by moving the source.
pub proof fn lemma_upgrade_never_moves(d: Decision, do_move: bool)
    ensures
        d is Upgrade ==> action_of(d, do_move) == FileAction::Copy,
        is_skip(d) <==> action_of(d, do_move) == FileAction::Nothing,
{
}

} // verus!
