//! The vulnerability-audit check's message.

use crate::render::TEXT_FORMAT;
use crate::text::{push_str, same_text};
use vstd::prelude::*;

verus! {

/// How an attempt to run the vulnerability auditor went.
#[derive(Clone, Debug, PartialEq, Eq)]
pub enum AuditOutcome {
    /// The auditor is not on the search path; it was not run.
    NotInstalled,
    /// The auditor ran; what it printed on standard output.
    Completed(String),
    /// The auditor could not be launched; the reason.
    LaunchFailed(String),
}

/// The message that reports an audit outcome.
pub open spec fn audit_message(o: AuditOutcome) -> Seq<char> {
    match o {
        AuditOutcome::NotInstalled => "⚠️  [audit] arch-audit not found in PATH"@,
        AuditOutcome::Completed(out) => if out@.len() == 0 {
            "✅ [audit] No known vulnerabilities"@
        } else {
            "⚠️  [audit] Vulnerabilities found:\n"@ + out@
        },
        AuditOutcome::LaunchFailed(reason) => "❌ [audit] Failed to run arch-audit: "@ + reason@,
    }
}

/// The message for an audit outcome in the given format: only the text
/// format prints one.
pub fn render_audit(outcome: &AuditOutcome, format: &str) -> (r: Option<String>)
    ensures
        format@ != TEXT_FORMAT@ ==> r is None,
        format@ == TEXT_FORMAT@ ==> r is Some && r->0@ == audit_message(*outcome),
{
    if !same_text(format, TEXT_FORMAT) {
        return None;
    }
    let mut s = String::new();
    match outcome {
        AuditOutcome::NotInstalled => {
            push_str(&mut s, "⚠️  [audit] arch-audit not found in PATH");
        },
        AuditOutcome::Completed(out) => {
            if out.as_str().is_empty() {
                push_str(&mut s, "✅ [audit] No known vulnerabilities");
            } else {
                push_str(&mut s, "⚠️  [audit] Vulnerabilities found:\n");
                push_str(&mut s, out.as_str());
            }
        },
        AuditOutcome::LaunchFailed(reason) => {
            push_str(&mut s, "❌ [audit] Failed to run arch-audit: ");
            push_str(&mut s, reason.as_str());
        },
    }
    assert(s@ =~= audit_message(*outcome));
    Some(s)
}

} // verus!
