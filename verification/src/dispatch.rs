//! The dispatcher and result aggregation. A long-lived registry of analyzer
//! instances, constructed once and reused across every document of a run,
//! is cleared before each document, fed every chunk in arrival order, and
//! finalized once per document after the last chunk. A failure while
//! processing one document aborts that document alone; its partial state is
//! discarded by the next clear.

use vstd::prelude::*;

use crate::analyzer::Analyzer;
use crate::analyzer::fold_steps;
use crate::errors::Error;
use crate::toc::ToCFinder;
use crate::toc::TocEntry;
use crate::toc::TocState;
use crate::toc::toc_cleared;
use crate::toc::toc_step;
use crate::toc::toc_step_ok;
use crate::versions::VersionFinder;
use crate::versions::VersionFindings;
use crate::versions::VersionState;
use crate::versions::no_dup_views;
use crate::versions::set_of;
use crate::versions::ver_cleared;
use crate::versions::ver_step;

verus! {

/// The registry of analyzer instances, constructed once per run and passed
/// by reference into the per-document routine, so that per-document
/// isolation is an invariant rather than a convention.
pub struct Registry {
    pub toc: ToCFinder,
    pub versions: VersionFinder,
}

/// The combined result handed to the external serializer: one finalized
/// value per registered analyzer, present even when empty.
pub struct DocumentFindings {
    pub table_of_contents: Vec<TocEntry>,
    pub versions: VersionFindings,
}

/// The region-scoped analyzer's state after one whole document.
pub open spec fn toc_result(chunks: Seq<Seq<char>>) -> TocState {
    fold_steps::<ToCFinder>(toc_cleared(), chunks)
}

/// The category-set analyzer's state after one whole document.
pub open spec fn ver_result(chunks: Seq<Seq<char>>) -> VersionState {
    fold_steps::<VersionFinder>(ver_cleared(), chunks)
}

/// The combined findings are exactly what the two analyzers' models yield
/// for the document's chunks, and nothing else.
pub open spec fn findings_match(f: DocumentFindings, chunks: Seq<Seq<char>>) -> bool {
    &&& f.table_of_contents@.map_values(|e: TocEntry| e@) == toc_result(chunks).entries
    &&& set_of(f.versions.eal@) == ver_result(chunks).eal && no_dup_views(f.versions.eal@)
    &&& set_of(f.versions.rsa@) == ver_result(chunks).rsa && no_dup_views(f.versions.rsa@)
    &&& set_of(f.versions.sha@) == ver_result(chunks).sha && no_dup_views(f.versions.sha@)
    &&& set_of(f.versions.des@) == ver_result(chunks).des && no_dup_views(f.versions.des@)
    &&& set_of(f.versions.ecc@) == ver_result(chunks).ecc && no_dup_views(f.versions.ecc@)
    &&& set_of(f.versions.java_card@) == ver_result(chunks).java_card && no_dup_views(
        f.versions.java_card@,
    )
    &&& set_of(f.versions.global_platform@) == ver_result(chunks).global_platform
        && no_dup_views(f.versions.global_platform@)
}

impl Registry {
    /// Every analyzer of the registry is well-formed.
    pub open spec fn wf(&self) -> bool {
        self.toc.wf() && self.versions.wf()
    }

    /// Builds every analyzer. Fails, before any document is processed,
    /// exactly when an extraction pattern does not compile.
    pub fn new() -> (r: Result<Registry, Error>)
        ensures
            r is Ok <==> crate::versions::patterns_ok(),
            r matches Ok(reg) ==> reg.wf() && reg.toc@ == toc_cleared() && reg.versions@
                == ver_cleared(),
            r is Err ==> r == Err::<Registry, Error>(Error::Pattern),
    {
        let versions = match VersionFinder::new() {
            Ok(v) => v,
            Err(e) => {
                return Err(e);
            },
        };
        Ok(Registry { toc: ToCFinder::new(), versions })
    }

    /// Clears every analyzer: called before the first chunk of each
    /// document, so no state leaks across documents.
    pub fn clear_all(&mut self)
        requires
            old(self).wf(),
        ensures
            final(self).wf(),
            final(self).toc@ == toc_cleared(),
            final(self).versions@ == ver_cleared(),
    {
        self.toc.clear();
        self.versions.clear();
    }

    /// Feeds one chunk to every analyzer, in registration order. Success is
    /// exactly the region-scoped scan completing; then each analyzer
    /// advances by exactly one step of its model, and a failed call leaves
    /// every analyzer as it was.
    pub fn process_chunk(&mut self, chunk: &str) -> (r: Result<(), Error>)
        requires
            old(self).wf(),
        ensures
            final(self).wf(),
            r is Ok <==> toc_step_ok(old(self).toc@, chunk@),
            r is Ok ==> final(self).toc@ == toc_step(old(self).toc@, chunk@),
            r is Ok ==> final(self).versions@ == ver_step(old(self).versions@, chunk@),
            r is Err ==> r == Err::<(), Error>(Error::Scan) && final(self).toc@ == old(self).toc@
                && final(self).versions@ == old(self).versions@,
    {
        match self.toc.process(chunk) {
            Ok(()) => {},
            Err(e) => {
                return Err(e);
            },
        }
        self.versions.process(chunk)
    }

    /// Finalizes every analyzer, exactly once per document, after the last
    /// chunk; every registered analyzer's result is included even if empty.
    pub fn finalize_all(&mut self) -> (r: DocumentFindings)
        requires
            old(self).wf(),
        ensures
            final(self).wf(),
            r.table_of_contents@.map_values(|e: TocEntry| e@) == old(self).toc@.entries,
            set_of(r.versions.eal@) == old(self).versions@.eal && no_dup_views(r.versions.eal@),
            set_of(r.versions.rsa@) == old(self).versions@.rsa && no_dup_views(r.versions.rsa@),
            set_of(r.versions.sha@) == old(self).versions@.sha && no_dup_views(r.versions.sha@),
            set_of(r.versions.des@) == old(self).versions@.des && no_dup_views(r.versions.des@),
            set_of(r.versions.ecc@) == old(self).versions@.ecc && no_dup_views(r.versions.ecc@),
            set_of(r.versions.java_card@) == old(self).versions@.java_card && no_dup_views(
                r.versions.java_card@,
            ),
            set_of(r.versions.global_platform@) == old(self).versions@.global_platform
                && no_dup_views(r.versions.global_platform@),
    {
        let table_of_contents = self.toc.finalize();
        let versions = self.versions.finalize();
        DocumentFindings { table_of_contents, versions }
    }
}

/// Whether every chunk of a document scans cleanly: the region-scoped
/// entry scan completes on each chunk's eligible text, from the state the
/// chunks before it reach.
pub open spec fn doc_scan_ok(chunks: Seq<Seq<char>>) -> bool {
    forall|i: int|
        0 <= i < chunks.len() ==> #[trigger] toc_step_ok(
            toc_result(chunks.subrange(0, i)),
            chunks[i],
        )
}

/// The per-document pipeline: clear every analyzer, feed every chunk in
/// order to every analyzer, finalize them all, and aggregate. Success is
/// exactly every chunk scanning cleanly; then the findings reflect exactly
/// the given chunks. On a scan failure the document's partial findings are
/// not returned.
pub fn process(registry: &mut Registry, chunks: &Vec<String>) -> (r: Result<DocumentFindings, Error>)
    requires
        old(registry).wf(),
    ensures
        final(registry).wf(),
        r is Ok <==> doc_scan_ok(chunks.deep_view()),
        r matches Ok(f) ==> findings_match(f, chunks.deep_view()),
        r is Err ==> r == Err::<DocumentFindings, Error>(Error::Scan),
{
    registry.clear_all();
    let n = chunks.len();
    let mut i: usize = 0;
    while i < n
        invariant
            0 <= i <= n,
            n == chunks@.len(),
            registry.wf(),
            registry.toc@ == toc_result(chunks.deep_view().subrange(0, i as int)),
            registry.versions@ == ver_result(chunks.deep_view().subrange(0, i as int)),
            forall|k: int|
                0 <= k < i ==> #[trigger] toc_step_ok(
                    toc_result(chunks.deep_view().subrange(0, k)),
                    chunks.deep_view()[k],
                ),
        decreases n - i,
    {
        let c = &chunks[i];
        match registry.process_chunk(c.as_str()) {
            Ok(()) => {},
            Err(e) => {
                proof {
                    let dv = chunks.deep_view();
                    assert(!toc_step_ok(toc_result(dv.subrange(0, i as int)), dv[i as int]));
                    assert(!doc_scan_ok(dv));
                }
                return Err(e);
            },
        }
        proof {
            let dv = chunks.deep_view();
            assert(dv.subrange(0, i + 1).drop_last() =~= dv.subrange(0, i as int));
            assert(dv.subrange(0, i + 1).last() == chunks@[i as int]@);
        }
        i = i + 1;
    }
    proof {
        assert(chunks.deep_view().subrange(0, chunks.deep_view().len() as int) =~= chunks.deep_view());
        assert(doc_scan_ok(chunks.deep_view()));
    }
    Ok(registry.finalize_all())
}

/// Drives a batch of already-read documents: each entry is either a
/// document's chunks or the failure met while reading it. A failing entry
/// reports its error and is skipped; every other document still yields a
/// complete result, unaffected by its neighbours.
pub fn run_batch(registry: &mut Registry, docs: &Vec<Result<Vec<String>, Error>>) -> (r: Vec<
    Result<DocumentFindings, Error>,
>)
    requires
        old(registry).wf(),
    ensures
        final(registry).wf(),
        r@.len() == docs@.len(),
        forall|i: int|
            0 <= i < docs@.len() ==> {
                &&& (docs@[i] is Err ==> #[trigger] r@[i] is Err && r@[i]->Err_0 == docs@[i]->Err_0)
                &&& (docs@[i] is Ok ==> (r@[i] is Ok <==> doc_scan_ok(
                    docs@[i]->Ok_0.deep_view(),
                )))
                &&& (docs@[i] is Ok && r@[i] is Ok ==> findings_match(
                    r@[i]->Ok_0,
                    docs@[i]->Ok_0.deep_view(),
                ))
            },
{
    let mut out: Vec<Result<DocumentFindings, Error>> = Vec::new();
    let n = docs.len();
    let mut i: usize = 0;
    while i < n
        invariant
            0 <= i <= n,
            n == docs@.len(),
            registry.wf(),
            out@.len() == i,
            forall|k: int|
                0 <= k < i ==> {
                    &&& (docs@[k] is Err ==> #[trigger] out@[k] is Err && out@[k]->Err_0
                        == docs@[k]->Err_0)
                    &&& (docs@[k] is Ok ==> (out@[k] is Ok <==> doc_scan_ok(
                        docs@[k]->Ok_0.deep_view(),
                    )))
                    &&& (docs@[k] is Ok && out@[k] is Ok ==> findings_match(
                        out@[k]->Ok_0,
                        docs@[k]->Ok_0.deep_view(),
                    ))
                },
        decreases n - i,
    {
        match &docs[i] {
            Err(e) => {
                out.push(Err(*e));
            },
            Ok(chunks) => {
                let one = process(registry, chunks);
                out.push(one);
            },
        }
        i = i + 1;
    }
    out
}

/// Law (the provable half of chunk-size independence): once the end
/// delimiter has fired, the chunks still to come never change the
/// region-scoped outcome — a document's result equals the result of its
/// prefix up to the end-transition chunk, however the rest is chunked.
pub proof fn lemma_toc_result_absorbs_after_end(chunks: Seq<Seq<char>>, more: Seq<Seq<char>>)
    requires
        toc_result(chunks).end_found,
    ensures
        toc_result(chunks + more) == toc_result(chunks),
    decreases more.len(),
{
    if more.len() == 0 {
        assert(chunks + more =~= chunks);
    } else {
        lemma_toc_result_absorbs_after_end(chunks, more.drop_last());
        assert((chunks + more).drop_last() =~= chunks + more.drop_last());
        assert((chunks + more).last() == more.last());
        crate::toc::lemma_toc_done_absorbs(toc_result(chunks), more.last());
    }
}

/// Law (the other provable half of chunk-size independence): chunks that
/// precede the start delimiter and hold none of it leave the region-scoped
/// analyzer untouched — the result of a document equals the result of its
/// tail from the start-transition chunk on, however the lead-in is chunked.
pub proof fn lemma_toc_result_ignores_lead_in(pre: Seq<Seq<char>>, rest: Seq<Seq<char>>)
    requires
        forall|i: int|
            0 <= i < pre.len() ==> crate::scan::toc_heading_rest(#[trigger] pre[i]) is None,
    ensures
        toc_result(pre + rest) == toc_result(rest),
    decreases rest.len(),
{
    if rest.len() == 0 {
        assert(pre + rest =~= pre);
        lemma_toc_lead_in_stays_cleared(pre);
    } else {
        lemma_toc_result_ignores_lead_in(pre, rest.drop_last());
        assert((pre + rest).drop_last() =~= pre + rest.drop_last());
        assert((pre + rest).last() == rest.last());
    }
}

proof fn lemma_toc_lead_in_stays_cleared(pre: Seq<Seq<char>>)
    requires
        forall|i: int|
            0 <= i < pre.len() ==> crate::scan::toc_heading_rest(#[trigger] pre[i]) is None,
    ensures
        toc_result(pre) == toc_cleared(),
    decreases pre.len(),
{
    if pre.len() > 0 {
        lemma_toc_lead_in_stays_cleared(pre.drop_last());
        crate::toc::lemma_toc_waiting_ignores(toc_cleared(), pre.last());
    }
}

/// Law: a document that carries the same chunk a second time yields the
/// same category mapping as one that holds it once — match text seen again
/// in a later chunk is deduplicated, not stored twice.
pub proof fn lemma_ver_result_repeat(chunks: Seq<Seq<char>>, c: Seq<char>)
    ensures
        ver_result(chunks.push(c).push(c)) == ver_result(chunks.push(c)),
{
    assert(chunks.push(c).push(c).drop_last() =~= chunks.push(c));
    assert(chunks.push(c).drop_last() =~= chunks);
    crate::versions::lemma_ver_step_idempotent(ver_result(chunks), c);
}

/// The batch-level indicator: true exactly when some path failed, so a run
/// can report a nonzero status.
pub fn batch_failed(results: &Vec<Result<DocumentFindings, Error>>) -> (r: bool)
    ensures
        r == exists|i: int| 0 <= i < results@.len() && results@[i] is Err,
{
    let n = results.len();
    let mut i: usize = 0;
    while i < n
        invariant
            0 <= i <= n,
            n == results@.len(),
            forall|k: int| 0 <= k < i ==> !(#[trigger] results@[k] is Err),
        decreases n - i,
    {
        if results[i].is_err() {
            return true;
        }
        i = i + 1;
    }
    false
}

} // verus!
