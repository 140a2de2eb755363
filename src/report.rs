//! The scan report: one probe result per candidate file, the non-clean ones
//! kept in the order they were recorded, with the counts.

use crate::probe::{launch_verdict, ProbeOutput, ProbeResult, ProbeVerdict};
use vstd::multiset::Multiset;
use vstd::prelude::*;

verus! {

broadcast use vstd::seq_lib::group_to_multiset_ensures;

/// A file whose probe was not clean, with its result.
#[derive(Clone, Debug, PartialEq, Eq)]
pub struct Failure {
    pub path: String,
    pub result: ProbeResult,
}

/// A probed file as the model sees it: its path and its verdict.
pub type Entry = (Seq<char>, ProbeVerdict);

/// Whether a verdict belongs in the failure list.
pub open spec fn is_failure(v: ProbeVerdict) -> bool {
    !(v is Clean)
}

/// The entries that are not clean, in order.
pub open spec fn failures_of(entries: Seq<Entry>) -> Seq<Entry>
    decreases entries.len(),
{
    if entries.len() == 0 {
        Seq::empty()
    } else {
        let earlier = failures_of(entries.drop_last());
        if is_failure(entries.last().1) {
            earlier.push(entries.last())
        } else {
            earlier
        }
    }
}

/// How many entries are clean.
pub open spec fn clean_count(entries: Seq<Entry>) -> nat
    decreases entries.len(),
{
    if entries.len() == 0 {
        0
    } else {
        clean_count(entries.drop_last()) + if is_failure(entries.last().1) {
            0nat
        } else {
            1nat
        }
    }
}

/// The model of a scan report.
pub ghost struct ScanModel {
    pub failures: Seq<Entry>,
    pub scanned: nat,
    pub clean: nat,
}

/// The report of a scan that recorded `entries`, in that order.
pub open spec fn report_of(entries: Seq<Entry>) -> ScanModel {
    ScanModel { failures: failures_of(entries), scanned: entries.len(), clean: clean_count(entries) }
}

/// The model of a failure record.
pub open spec fn failure_view(f: Failure) -> Entry {
    (f.path@, f.result@)
}

/// The model of a list of probed files.
pub open spec fn entries_view(v: Seq<(String, ProbeResult)>) -> Seq<Entry> {
    v.map_values(|e: (String, ProbeResult)| (e.0@, e.1@))
}

/// The results of a scan, built one probe result at a time.
pub struct ScanReport {
    failures: Vec<Failure>,
    scanned: usize,
    clean: usize,
}

impl View for ScanReport {
    type V = ScanModel;

    closed spec fn view(&self) -> ScanModel {
        ScanModel {
            failures: self.failures@.map_values(|f: Failure| failure_view(f)),
            scanned: self.scanned as nat,
            clean: self.clean as nat,
        }
    }
}

/// Every recorded result is either clean or listed as a failure.
pub proof fn lemma_every_candidate_accounted(entries: Seq<Entry>)
    ensures
        failures_of(entries).len() + clean_count(entries) == entries.len(),
        forall|i: int|
            0 <= i < failures_of(entries).len() ==> is_failure(#[trigger] failures_of(entries)[i].1),
    decreases entries.len(),
{
    if entries.len() > 0 {
        lemma_every_candidate_accounted(entries.drop_last());
    }
}

proof fn lemma_failure_counts(entries: Seq<Entry>)
    ensures
        forall|x: Entry|
            #[trigger] failures_of(entries).to_multiset().count(x) == if is_failure(x.1) {
                entries.to_multiset().count(x)
            } else {
                0
            },
    decreases entries.len(),
{
    if entries.len() > 0 {
        let prefix = entries.drop_last();
        let e = entries.last();
        lemma_failure_counts(prefix);
        assert(entries =~= prefix.push(e));
        assert(entries.to_multiset() =~= prefix.to_multiset().insert(e));
        if is_failure(e.1) {
            assert(failures_of(entries).to_multiset() =~= failures_of(prefix).to_multiset().insert(
                e,
            ));
        } else {
            assert(failures_of(entries) == failures_of(prefix));
        }
        assert forall|x: Entry|
            #[trigger] failures_of(entries).to_multiset().count(x) == if is_failure(x.1) {
                entries.to_multiset().count(x)
            } else {
                0
            } by {
            assert(failures_of(prefix).to_multiset().count(x) == if is_failure(x.1) {
                prefix.to_multiset().count(x)
            } else {
                0
            });
        }
    } else {
        assert(entries.to_multiset() =~= Multiset::empty());
        assert(failures_of(entries).to_multiset() =~= Multiset::empty());
    }
}

/// The report does not depend on the order in which results arrive: two
/// scans that recorded the same multiset of results have the same multiset
/// of failures and the same counts.
pub proof fn lemma_report_order_independent(a: Seq<Entry>, b: Seq<Entry>)
    requires
        a.to_multiset() == b.to_multiset(),
    ensures
        report_of(a).failures.to_multiset() == report_of(b).failures.to_multiset(),
        report_of(a).scanned == report_of(b).scanned,
        report_of(a).clean == report_of(b).clean,
{
    lemma_failure_counts(a);
    lemma_failure_counts(b);
    assert(failures_of(a).to_multiset() =~= failures_of(b).to_multiset());
    assert(a.len() == a.to_multiset().len());
    assert(b.len() == b.to_multiset().len());
    assert(failures_of(a).len() == failures_of(a).to_multiset().len());
    assert(failures_of(b).len() == failures_of(b).to_multiset().len());
    lemma_every_candidate_accounted(a);
    lemma_every_candidate_accounted(b);
}

proof fn lemma_map_keeps_multiset<A, B>(a: Seq<A>, b: Seq<A>, f: spec_fn(A) -> B)
    requires
        a.to_multiset() == b.to_multiset(),
    ensures
        a.map_values(f).to_multiset() == b.map_values(f).to_multiset(),
    decreases a.len(),
{
    if a.len() == 0 {
        assert(b.len() == b.to_multiset().len());
        assert(a.len() == a.to_multiset().len());
        assert(a.map_values(f) =~= b.map_values(f));
    } else {
        let x = a.last();
        let rest = a.drop_last();
        assert(a =~= rest.push(x));
        assert(a.to_multiset() =~= rest.to_multiset().insert(x));
        assert(b.to_multiset().count(x) > 0);
        assert(b.contains(x));
        let j = choose|j: int| 0 <= j < b.len() && b[j] == x;
        let br = b.remove(j);
        assert(br.to_multiset() =~= b.to_multiset().remove(x));
        assert(br.to_multiset() =~= rest.to_multiset());
        lemma_map_keeps_multiset(rest, br, f);
        let am = a.map_values(f);
        let bm = b.map_values(f);
        assert(am =~= rest.map_values(f).push(f(x)));
        assert(am.to_multiset() =~= rest.map_values(f).to_multiset().insert(f(x)));
        assert(bm.remove(j) =~= br.map_values(f));
        assert(bm.remove(j).to_multiset() =~= bm.to_multiset().remove(bm[j]));
        assert(bm.to_multiset().count(f(x)) > 0) by {
            assert(bm.contains(bm[j]));
        }
        assert(bm.to_multiset() =~= bm.to_multiset().remove(f(x)).insert(f(x)));
    }
}

/// The entries recorded for probes of the given paths that produced the
/// given launch outcomes.
pub open spec fn probed_entries(launches: Seq<(Seq<char>, Result<ProbeOutput, String>)>) -> Seq<
    Entry,
> {
    launches.map_values(|l: (Seq<char>, Result<ProbeOutput, String>)| (l.0, launch_verdict(l.1)))
}

/// Two runs over the same files whose probes printed the same outputs give
/// the same multiset of failures and the same counts, whatever order the
/// probes completed in.
pub proof fn lemma_rerun_same_report(
    a: Seq<(Seq<char>, Result<ProbeOutput, String>)>,
    b: Seq<(Seq<char>, Result<ProbeOutput, String>)>,
)
    requires
        a.to_multiset() == b.to_multiset(),
    ensures
        report_of(probed_entries(a)).failures.to_multiset() == report_of(
            probed_entries(b),
        ).failures.to_multiset(),
        report_of(probed_entries(a)).scanned == report_of(probed_entries(b)).scanned,
        report_of(probed_entries(a)).clean == report_of(probed_entries(b)).clean,
{
    lemma_map_keeps_multiset(
        a,
        b,
        |l: (Seq<char>, Result<ProbeOutput, String>)| (l.0, launch_verdict(l.1)),
    );
    lemma_report_order_independent(probed_entries(a), probed_entries(b));
}

impl ScanReport {
    /// Well-formed: the counts agree with the failure list, and every listed
    /// failure is not clean.
    pub open spec fn wf(&self) -> bool {
        &&& self@.failures.len() + self@.clean == self@.scanned
        &&& forall|i: int|
            0 <= i < self@.failures.len() ==> is_failure(#[trigger] self@.failures[i].1)
    }

    /// An empty report.
    pub fn new() -> (r: ScanReport)
        ensures
            r.wf(),
            r@ == report_of(Seq::empty()),
    {
        let r = ScanReport { failures: Vec::new(), scanned: 0, clean: 0 };
        assert(r@.failures =~= Seq::<Entry>::empty());
        r
    }

    /// Records the result of one probe: a clean one is counted, any other
    /// is appended to the failures.
    pub fn record(&mut self, path: String, result: ProbeResult)
        requires
            old(self).wf(),
            old(self)@.scanned < usize::MAX,
        ensures
            final(self).wf(),
            final(self)@.scanned == old(self)@.scanned + 1,
            final(self)@.failures == if is_failure(result@) {
                old(self)@.failures.push((path@, result@))
            } else {
                old(self)@.failures
            },
            final(self)@.clean == old(self)@.clean + if is_failure(result@) {
                0nat
            } else {
                1nat
            },
    {
        self.scanned = self.scanned + 1;
        match result {
            ProbeResult::Clean => {
                self.clean = self.clean + 1;
            },
            _ => {
                let ghost before = self.failures@;
                let f = Failure { path, result };
                self.failures.push(f);
                assert(self.failures@.map_values(|f: Failure| failure_view(f)) =~= before.map_values(
                    |f: Failure| failure_view(f),
                ).push(failure_view(f)));
            },
        }
    }

    /// The report of a scan that recorded `entries` in order.
    pub fn aggregate(entries: Vec<(String, ProbeResult)>) -> (r: ScanReport)
        ensures
            r.wf(),
            r@ == report_of(entries_view(entries@)),
            r@.failures.len() + r@.clean == entries@.len(),
    {
        let ghost ev = entries_view(entries@);
        let mut r = ScanReport::new();
        let n = entries.len();
        for e in it: entries
            invariant
                n == entries@.len(),
                it.seq() == entries@,
                ev == entries_view(entries@),
                r.wf(),
                r@ == report_of(ev.take(it.index() as int)),
        {
            let ghost i = it.index() as int;
            assert(i < n);
            assert(ev.take(i + 1).drop_last() =~= ev.take(i));
            assert(ev.take(i + 1).last() == (e.0@, e.1@));
            r.record(e.0, e.1);
        }
        let ghost n = ev.len() as int;
        assert(ev.take(n) =~= ev);
        proof {
            lemma_every_candidate_accounted(ev);
        }
        r
    }

    /// The failures, in the order they were recorded.
    pub fn failures(&self) -> (r: &Vec<Failure>)
        ensures
            r@.map_values(|f: Failure| failure_view(f)) == self@.failures,
    {
        &self.failures
    }

    /// How many files were probed.
    pub fn scanned(&self) -> (r: usize)
        ensures
            r == self@.scanned,
    {
        self.scanned
    }

    /// How many probes were clean.
    pub fn clean_count(&self) -> (r: usize)
        ensures
            r == self@.clean,
    {
        self.clean
    }

    /// How many probes were not clean.
    pub fn failure_count(&self) -> (r: usize)
        ensures
            r == self@.failures.len(),
    {
        self.failures.len()
    }
}

} // verus!
