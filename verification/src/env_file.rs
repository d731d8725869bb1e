//! The lines appended to the environment file, and the course of writing them.

use vstd::prelude::*;
use vstd::string::StringExecFns;

verus! {

/// The line that exports `value` under `key`: the key, an equals sign, the
/// value between single quotes as it stands, and a line feed.
pub open spec fn line_text(key: Seq<char>, value: Seq<char>) -> Seq<char> {
    key + seq!['=', '\''] + value + seq!['\'', '\n']
}

/// One line for each pair, in the order of the pairs.
pub open spec fn lines_text(pairs: Seq<(Seq<char>, Seq<char>)>) -> Seq<Seq<char>> {
    pairs.map_values(|pair: (Seq<char>, Seq<char>)| line_text(pair.0, pair.1))
}

/// Formats the line that exports `value` under `key`.
pub fn env_line(key: &str, value: &str) -> (line: String)
    ensures
        line@ == line_text(key@, value@),
{
    proof {
        reveal_strlit("='");
        reveal_strlit("'\n");
    }
    let mut line = key.to_owned();
    line.append("='");
    line.append(value);
    line.append("'\n");
    assert(line@ =~= line_text(key@, value@));
    line
}

/// Formats one line for each pair.
pub fn env_lines(vars: &Vec<(String, String)>) -> (lines: Vec<String>)
    ensures
        lines.deep_view() == lines_text(vars.deep_view()),
{
    let mut lines: Vec<String> = Vec::new();
    let n = vars.len();
    let mut i: usize = 0;
    while i < n
        invariant
            i <= n,
            n == vars.len(),
            lines.deep_view() =~= lines_text(vars.deep_view().take(i as int)),
        decreases n - i,
    {
        let ghost before = lines.deep_view();
        lines.push(env_line(vars[i].0.as_str(), vars[i].1.as_str()));
        proof {
            assert(vars.deep_view().take(i as int + 1) =~= vars.deep_view().take(i as int).push(
                vars[i as int].deep_view(),
            ));
            assert(lines.deep_view() =~= before.push(line_text(vars[i as int].0@, vars[i as int].1@)));
        }
        i += 1;
    }
    assert(vars.deep_view().take(n as int) =~= vars.deep_view());
    lines
}

/// How far the writing of the lines has come.
pub struct Progress {
    /// The lines to append, in order.
    pub lines: Seq<Seq<char>>,
    /// How many of them have been attempted: the lines before this position.
    pub attempted: nat,
    /// The positions of the attempted lines that could not be written, rising.
    pub failed: Seq<nat>,
}

/// The progress after the attempt on the next line came out as `written`.
/// A failure is noted and does not stop the writing: the line after it is
/// next either way. Once every line has been attempted nothing changes.
pub open spec fn recorded(progress: Progress, written: bool) -> Progress {
    if progress.attempted >= progress.lines.len() {
        progress
    } else {
        Progress {
            lines: progress.lines,
            attempted: progress.attempted + 1,
            failed: if written {
                progress.failed
            } else {
                progress.failed.push(progress.attempted)
            },
        }
    }
}

/// The progress after one attempt for each of `outcomes`, in order.
pub open spec fn recorded_all(progress: Progress, outcomes: Seq<bool>) -> Progress
    decreases outcomes.len(),
{
    if outcomes.len() == 0 {
        progress
    } else {
        recorded(recorded_all(progress, outcomes.drop_last()), outcomes.last())
    }
}

/// The line to attempt next, if any is left.
pub open spec fn next_line(progress: Progress) -> Option<Seq<char>> {
    if progress.attempted < progress.lines.len() {
        Some(progress.lines[progress.attempted as int])
    } else {
        None
    }
}

/// The positions among `outcomes`, counted from `from`, at which the outcome
/// is a failure.
pub open spec fn failures(outcomes: Seq<bool>, from: nat) -> Seq<nat>
    decreases outcomes.len(),
{
    if outcomes.len() == 0 {
        Seq::empty()
    } else {
        let before = failures(outcomes.drop_last(), from);
        if outcomes.last() {
            before
        } else {
            before.push((from + outcomes.len() - 1) as nat)
        }
    }
}

/// However the attempts come out, each one moves the writing on by one line:
/// after as many outcomes as lines were left, or fewer, that many more lines
/// have been attempted, the lines are the same, and exactly the failures are
/// noted.
pub proof fn lemma_failures_do_not_stop_writing(progress: Progress, outcomes: Seq<bool>)
    requires
        progress.attempted + outcomes.len() <= progress.lines.len(),
    ensures
        recorded_all(progress, outcomes).lines == progress.lines,
        recorded_all(progress, outcomes).attempted == progress.attempted + outcomes.len(),
        recorded_all(progress, outcomes).failed == progress.failed + failures(
            outcomes,
            progress.attempted,
        ),
    decreases outcomes.len(),
{
    if outcomes.len() > 0 {
        lemma_failures_do_not_stop_writing(progress, outcomes.drop_last());
        let before = recorded_all(progress, outcomes.drop_last());
        assert(recorded_all(progress, outcomes).failed =~= progress.failed + failures(
            outcomes,
            progress.attempted,
        ));
    } else {
        assert(progress.failed + failures(outcomes, progress.attempted) =~= progress.failed);
    }
}

/// Walks through the lines to append. The caller writes the line it is
/// handed and reports how that went; the walk goes on whatever the report.
pub struct EnvWriter {
    lines: Vec<String>,
    next: usize,
    failed: Vec<usize>,
}

impl View for EnvWriter {
    type V = Progress;

    closed spec fn view(&self) -> Progress {
        Progress {
            lines: self.lines.deep_view(),
            attempted: self.next as nat,
            failed: self.failed@.map_values(|at: usize| at as nat),
        }
    }
}

impl EnvWriter {
    /// A walk through one line for each pair, with nothing attempted yet.
    pub fn new(vars: &Vec<(String, String)>) -> (writer: EnvWriter)
        ensures
            writer@ == (Progress {
                lines: lines_text(vars.deep_view()),
                attempted: 0,
                failed: Seq::empty(),
            }),
    {
        let writer = EnvWriter { lines: env_lines(vars), next: 0, failed: Vec::new() };
        assert(writer@.failed =~= Seq::empty());
        writer
    }

    /// The line to write next, or `None` once every line has been attempted.
    pub fn pending(&self) -> (line: Option<&str>)
        ensures
            match line {
                Some(text) => next_line(self@) == Some(text@),
                None => next_line(self@) is None,
            },
    {
        if self.next < self.lines.len() {
            Some(self.lines[self.next].as_str())
        } else {
            None
        }
    }

    /// Takes note of how the attempt on the pending line came out and moves
    /// on to the line after it.
    pub fn record(&mut self, written: bool)
        ensures
            final(self)@ == recorded(old(self)@, written),
    {
        if self.next < self.lines.len() {
            if !written {
                self.failed.push(self.next);
            }
            self.next = self.next + 1;
        }
        assert(self@.failed =~= recorded(old(self)@, written).failed);
    }

    /// The positions of the lines that could not be written, rising.
    pub fn failed(&self) -> (at: &Vec<usize>)
        ensures
            at@.map_values(|at: usize| at as nat) == self@.failed,
    {
        &self.failed
    }
}

} // verus!
