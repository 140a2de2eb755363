//! Classifying what the dependency-resolution utility reported for one file.

use crate::text::{
    chars_of, contains_chars, contains_seq, newline_pieces, split_newlines, string_of_chars,
    trim, trim_chars,
};
use vstd::prelude::*;

verus! {

/// The text by which the dependency-resolution utility marks a dependency
/// it could not resolve.
pub const MISSING_MARKER: &'static str = "not found";

/// The outcome of probing one candidate file.
#[derive(Clone, Debug, PartialEq, Eq)]
pub enum ProbeResult {
    /// Every dependency resolved.
    Clean,
    /// The utility reported unresolved dependencies; the trimmed lines of
    /// its standard output that name them, in order.
    MissingDependencies(Vec<String>),
    /// The utility could not be launched; the reason.
    ProbeFailed(String),
}

/// The mathematical model of a [`ProbeResult`].
pub ghost enum ProbeVerdict {
    Clean,
    Missing(Seq<Seq<char>>),
    Failed(Seq<char>),
}

impl View for ProbeResult {
    type V = ProbeVerdict;

    open spec fn view(&self) -> ProbeVerdict {
        match self {
            ProbeResult::Clean => ProbeVerdict::Clean,
            ProbeResult::MissingDependencies(lines) => ProbeVerdict::Missing(
                lines@.map_values(|l: String| l@),
            ),
            ProbeResult::ProbeFailed(reason) => ProbeVerdict::Failed(reason@),
        }
    }
}

/// What the utility wrote for one file.
#[derive(Clone, Debug)]
pub struct ProbeOutput {
    pub stdout: String,
    pub stderr: String,
}

/// The missing-dependency marker as characters.
pub open spec fn marker() -> Seq<char> {
    MISSING_MARKER@
}

/// The pieces that hold the marker, each trimmed, in order.
pub open spec fn flagged_lines(pieces: Seq<Seq<char>>) -> Seq<Seq<char>>
    decreases pieces.len(),
{
    if pieces.len() == 0 {
        Seq::empty()
    } else {
        let earlier = flagged_lines(pieces.drop_last());
        if contains_seq(pieces.last(), marker()) {
            earlier.push(trim(pieces.last()))
        } else {
            earlier
        }
    }
}

/// The verdict on a file whose probe printed `stdout` and `stderr`: missing
/// dependencies when either stream holds the marker, listing the trimmed
/// lines of `stdout` that hold it; clean otherwise.
pub open spec fn output_verdict(stdout: Seq<char>, stderr: Seq<char>) -> ProbeVerdict {
    if contains_seq(stdout, marker()) || contains_seq(stderr, marker()) {
        ProbeVerdict::Missing(flagged_lines(newline_pieces(stdout)))
    } else {
        ProbeVerdict::Clean
    }
}

/// The verdict on a probe: a launch failure keeps its reason, an output is
/// classified by [`output_verdict`].
pub open spec fn launch_verdict(launch: Result<ProbeOutput, String>) -> ProbeVerdict {
    match launch {
        Ok(out) => output_verdict(out.stdout@, out.stderr@),
        Err(reason) => ProbeVerdict::Failed(reason@),
    }
}

/// The trimmed lines of `stdout` that hold the marker.
fn marked_lines(stdout: &Vec<char>, mark: &Vec<char>) -> (r: Vec<String>)
    requires
        mark@ == marker(),
    ensures
        r@.map_values(|l: String| l@) == flagged_lines(newline_pieces(stdout@)),
{
    let pieces = split_newlines(stdout);
    let ghost pv = pieces@.map_values(|l: Vec<char>| l@);
    let mut out: Vec<String> = Vec::new();
    let n = pieces.len();
    for i in 0..n
        invariant
            n == pieces@.len(),
            pv == pieces@.map_values(|l: Vec<char>| l@),
            mark@ == marker(),
            out@.map_values(|l: String| l@) == flagged_lines(pv.take(i as int)),
    {
        assert(pv.take(i as int + 1).drop_last() =~= pv.take(i as int));
        assert(pv.take(i as int + 1).last() == pieces@[i as int]@);
        if contains_chars(&pieces[i], mark) {
            let t = trim_chars(&pieces[i]);
            let line = string_of_chars(&t);
            let ghost before = out@;
            out.push(line);
            assert(out@.map_values(|l: String| l@) =~= before.map_values(|l: String| l@).push(
                line@,
            ));
        }
    }
    assert(pv.take(n as int) =~= pv);
    out
}

/// Classifies what the utility printed for one file.
pub fn classify_output(stdout: &str, stderr: &str) -> (r: ProbeResult)
    ensures
        r@ == output_verdict(stdout@, stderr@),
{
    let mark = chars_of(MISSING_MARKER);
    let out = chars_of(stdout);
    let err = chars_of(stderr);
    if contains_chars(&out, &mark) || contains_chars(&err, &mark) {
        ProbeResult::MissingDependencies(marked_lines(&out, &mark))
    } else {
        ProbeResult::Clean
    }
}

/// Classifies one probe: `Err` carries the reason the utility could not be
/// launched, `Ok` what it printed.
pub fn classify_probe(launch: Result<ProbeOutput, String>) -> (r: ProbeResult)
    ensures
        r@ == launch_verdict(launch),
{
    match launch {
        Ok(out) => classify_output(out.stdout.as_str(), out.stderr.as_str()),
        Err(reason) => ProbeResult::ProbeFailed(reason),
    }
}

} // verus!
