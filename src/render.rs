//! Rendering a finished scan report as the lines of the results stream.

use crate::probe::{ProbeResult, ProbeVerdict};
use crate::elf::{lemma_absent_roots_yield_nothing, walk_candidates, DirEntryInfo};
use crate::report::{failure_view, report_of, Entry, Failure, ScanModel, ScanReport};
use crate::text::{decimal, push_decimal, push_str, same_text};
use vstd::prelude::*;

verus! {

/// The output format whose report is rendered; any other suppresses it.
pub const TEXT_FORMAT: &'static str = "text";

/// The missing-dependency lines, each indented, joined by newlines.
pub open spec fn indented_lines(lines: Seq<Seq<char>>) -> Seq<char>
    decreases lines.len(),
{
    if lines.len() == 0 {
        Seq::empty()
    } else if lines.len() == 1 {
        "      "@ + lines[0]
    } else {
        indented_lines(lines.drop_last()) + "\n      "@ + lines.last()
    }
}

/// The text of one failure.
pub open spec fn failure_text(e: Entry) -> Seq<char> {
    match e.1 {
        ProbeVerdict::Missing(lines) => "📄 "@ + e.0 + "\n   ❌ Missing dependencies:\n"@
            + indented_lines(lines),
        ProbeVerdict::Failed(reason) => "⚠️  Failed to analyze: "@ + e.0 + " ("@ + reason + ")"@,
        ProbeVerdict::Clean => e.0,
    }
}

/// The block printed for the failure at position `i`: failures after the
/// first are set apart by a blank line.
pub open spec fn failure_block(i: int, e: Entry) -> Seq<char> {
    if i == 0 {
        failure_text(e)
    } else {
        "\n"@ + failure_text(e)
    }
}

/// The first line of a report with `total` files and no failure.
pub open spec fn all_clean_line(total: nat) -> Seq<char> {
    "✅ All "@ + decimal(total) + " ELF files have satisfied dependencies!"@
}

/// The second line of a report with no failure.
pub open spec fn no_missing_line() -> Seq<char> {
    "🔗 No missing shared libraries detected"@
}

/// The heading of a report with `count` failures.
pub open spec fn found_line(count: nat) -> Seq<char> {
    "❌ Found "@ + decimal(count) + " files with missing dependencies:\n"@
}

/// The closing summary of a report with failures.
pub open spec fn summary_line(count: nat, total: nat) -> Seq<char> {
    "\n📊 Summary: "@ + decimal(count) + "/"@ + decimal(total) + " files have dependency issues"@
}

/// The blocks of the results stream for a report in the given format: none
/// unless the format is text; the success path when nothing failed; else a
/// heading, one block per failure in order, and a summary.
pub open spec fn rendered_report(m: ScanModel, format: Seq<char>) -> Seq<Seq<char>> {
    if format != TEXT_FORMAT@ {
        Seq::empty()
    } else if m.failures.len() == 0 {
        seq![all_clean_line(m.scanned), no_missing_line()]
    } else {
        seq![found_line(m.failures.len())] + Seq::new(
            m.failures.len(),
            |i: int| failure_block(i, m.failures[i]),
        ) + seq![summary_line(m.failures.len(), m.scanned)]
    }
}

fn push_indented_lines(s: &mut String, lines: &Vec<String>)
    ensures
        final(s)@ == old(s)@ + indented_lines(lines@.map_values(|l: String| l@)),
{
    let ghost start = s@;
    let ghost lv = lines@.map_values(|l: String| l@);
    for i in 0..lines.len()
        invariant
            lv == lines@.map_values(|l: String| l@),
            s@ == start + indented_lines(lv.take(i as int)),
    {
        assert(lv.take(i as int + 1).drop_last() =~= lv.take(i as int));
        if i == 0 {
            push_str(s, "      ");
        } else {
            push_str(s, "\n      ");
        }
        push_str(s, lines[i].as_str());
        proof {
            let t = lv.take(i as int + 1);
            if i == 0 {
                assert(t[0] == lines@[0]@);
            } else {
                assert(t.last() == lines@[i as int]@);
            }
        }
        assert(s@ =~= start + indented_lines(lv.take(i as int + 1)));
    }
    assert(lv.take(lines@.len() as int) =~= lv);
}

/// The text of one failure record.
pub fn render_failure(f: &Failure) -> (r: String)
    ensures
        r@ == failure_text(failure_view(*f)),
{
    let mut s = String::new();
    match &f.result {
        ProbeResult::MissingDependencies(lines) => {
            push_str(&mut s, "📄 ");
            push_str(&mut s, f.path.as_str());
            push_str(&mut s, "\n   ❌ Missing dependencies:\n");
            push_indented_lines(&mut s, lines);
        },
        ProbeResult::ProbeFailed(reason) => {
            push_str(&mut s, "⚠️  Failed to analyze: ");
            push_str(&mut s, f.path.as_str());
            push_str(&mut s, " (");
            push_str(&mut s, reason.as_str());
            push_str(&mut s, ")");
        },
        ProbeResult::Clean => {
            push_str(&mut s, f.path.as_str());
        },
    }
    assert(s@ =~= failure_text(failure_view(*f)));
    s
}

/// Renders the report as the blocks of the results stream, each to be
/// printed as a line of its own.
pub fn render_report(report: &ScanReport, format: &str) -> (r: Vec<String>)
    ensures
        r@.map_values(|l: String| l@) == rendered_report(report@, format@),
        format@ == TEXT_FORMAT@ && report@.failures.len() > 0 ==> r@.len()
            == report@.failures.len() + 2,
{
    let mut out: Vec<String> = Vec::new();
    if !same_text(format, TEXT_FORMAT) {
        assert(out@.map_values(|l: String| l@) =~= rendered_report(report@, format@));
        return out;
    }
    let failures = report.failures();
    let ghost fv = failures@.map_values(|f: Failure| failure_view(f));
    let k = failures.len();
    let total = report.scanned();
    if k == 0 {
        let mut a = String::new();
        push_str(&mut a, "✅ All ");
        push_decimal(&mut a, total);
        push_str(&mut a, " ELF files have satisfied dependencies!");
        let mut b = String::new();
        push_str(&mut b, "🔗 No missing shared libraries detected");
        assert(a@ =~= all_clean_line(total as nat));
        out.push(a);
        out.push(b);
        assert(out@.map_values(|l: String| l@) =~= rendered_report(report@, format@));
        return out;
    }
    let mut head = String::new();
    push_str(&mut head, "❌ Found ");
    push_decimal(&mut head, k);
    push_str(&mut head, " files with missing dependencies:\n");
    assert(head@ =~= found_line(k as nat));
    out.push(head);
    for i in 0..k
        invariant
            k == failures@.len(),
            fv == failures@.map_values(|f: Failure| failure_view(f)),
            fv == report@.failures,
            out@.len() == i + 1,
            out@[0]@ == found_line(k as nat),
            forall|j: int| 0 <= j < i ==> (#[trigger] out@[j + 1])@ == failure_block(j, fv[j]),
    {
        let mut block = String::new();
        if i > 0 {
            push_str(&mut block, "\n");
        }
        let text = render_failure(&failures[i]);
        push_str(&mut block, text.as_str());
        assert(block@ =~= failure_block(i as int, fv[i as int]));
        out.push(block);
    }
    let mut tail = String::new();
    push_str(&mut tail, "\n📊 Summary: ");
    push_decimal(&mut tail, k);
    push_str(&mut tail, "/");
    push_decimal(&mut tail, total);
    push_str(&mut tail, " files have dependency issues");
    assert(tail@ =~= summary_line(k as nat, total as nat));
    out.push(tail);
    proof {
        let mid = Seq::new(fv.len(), |i: int| failure_block(i, fv[i]));
        let rr = seq![found_line(k as nat)] + mid + seq![summary_line(k as nat, total as nat)];
        assert(rr == rendered_report(report@, format@));
        let ov = out@.map_values(|l: String| l@);
        assert forall|j: int| 0 <= j < rr.len() implies ov[j] == rr[j] by {
            if j == 0 {
            } else if j <= k {
                assert(out@[(j - 1) + 1]@ == failure_block(j - 1, fv[j - 1]));
                assert(rr[j] == mid[j - 1]);
            } else {
                assert(rr[j] == summary_line(k as nat, total as nat));
            }
        }
        assert(ov =~= rr);
    }
    out
}

/// When none of the roots could be listed, the walk finds no candidate, and
/// the report over the (then empty) probe results renders the success path
/// for zero files rather than an error.
pub proof fn lemma_absent_roots_render_success(
    listings: Seq<Option<Vec<DirEntryInfo>>>,
    entries: Seq<Entry>,
)
    requires
        forall|i: int| 0 <= i < listings.len() ==> (#[trigger] listings[i]) is None,
        entries.len() == walk_candidates(listings).len(),
    ensures
        walk_candidates(listings).len() == 0,
        rendered_report(report_of(entries), TEXT_FORMAT@) == seq![
            all_clean_line(0),
            no_missing_line(),
        ],
{
    lemma_absent_roots_yield_nothing(listings);
    assert(entries =~= Seq::<Entry>::empty());
}

} // verus!
