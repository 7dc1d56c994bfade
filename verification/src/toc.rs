//! The region-scoped, multi-chunk analyzer. It walks three states —
//! searching for the start delimiter, searching for the end delimiter, done
//! — and extracts ordered `(index, title, page)` entries from the delimited
//! region. Delimiter and entry matching are chunk-local: a pattern that
//! straddles a chunk boundary is not recognized, by design.

use vstd::prelude::*;

use crate::errors::Error;
use crate::scan;
use crate::text;

verus! {

/// One table-of-contents entry: an index token, a title, and a trailing
/// page number (0 when absent or unparsable).
pub struct TocEntry {
    pub index: String,
    pub title: String,
    pub page: u32,
}

impl View for TocEntry {
    type V = (Seq<char>, Seq<char>, u32);

    open spec fn view(&self) -> (Seq<char>, Seq<char>, u32) {
        (self.index@, self.title@, self.page)
    }
}

/// The mathematical state of the region-scoped analyzer.
#[verifier::ext_equal]
pub ghost struct TocState {
    pub start_found: bool,
    pub end_found: bool,
    pub entries: Seq<(Seq<char>, Seq<char>, u32)>,
}

/// The entry recorded for one raw match: the index trimmed, the title
/// trimmed with line breaks folded to spaces, and the page parsed from its
/// normalized digits (0 when absent or unparsable).
pub open spec fn entry_model(raw: (Seq<char>, Seq<char>, Seq<char>)) -> (Seq<char>, Seq<char>, u32) {
    (
        text::trim_spec(raw.0),
        text::normalize_plain_spec(raw.1),
        text::parse_page_spec(text::normalize_plain_spec(raw.2)),
    )
}

/// The pristine, pre-any-chunk state.
pub open spec fn toc_cleared() -> TocState {
    TocState { start_found: false, end_found: false, entries: Seq::empty() }
}

/// The part of a region text that is scanned for entries: what lies before
/// the first pair of consecutive line breaks, or all of it.
pub open spec fn eligible_text(region: Seq<char>) -> Seq<char> {
    match scan::first_blank_split(region) {
        Some(i) => region.subrange(0, i),
        None => region,
    }
}

/// The scan of one region text: only its eligible part is scanned, and its
/// entry matches are appended in match order; a pair of consecutive line
/// breaks ends the region.
pub open spec fn toc_scan(pre: TocState, region: Seq<char>) -> TocState {
    TocState {
        start_found: pre.start_found,
        end_found: pre.end_found || scan::first_blank_split(region) is Some,
        entries: pre.entries + scan::toc_raw_entries(eligible_text(region)).map_values(
            |raw: (Seq<char>, Seq<char>, Seq<char>)| entry_model(raw),
        ),
    }
}

/// What one `process` call does to the analyzer state: a done analyzer
/// ignores the chunk; one still searching for the start delimiter scans
/// only the text after that delimiter, within this chunk; one inside the
/// region scans the whole chunk.
pub open spec fn toc_step(pre: TocState, chunk: Seq<char>) -> TocState {
    if pre.end_found {
        pre
    } else if !pre.start_found {
        match scan::toc_heading_rest(chunk) {
            None => pre,
            Some(rest) => toc_scan(
                TocState { start_found: true, end_found: pre.end_found, entries: pre.entries },
                rest,
            ),
        }
    } else {
        toc_scan(pre, chunk)
    }
}

/// When one `process` call succeeds: always while the analyzer is done or
/// still waiting for the start delimiter (no entry scan runs), and
/// otherwise exactly when the entry scan completes on the chunk's eligible
/// text.
pub open spec fn toc_step_ok(pre: TocState, chunk: Seq<char>) -> bool {
    if pre.end_found {
        true
    } else if !pre.start_found {
        match scan::toc_heading_rest(chunk) {
            None => true,
            Some(rest) => scan::toc_scan_ok(eligible_text(rest)),
        }
    } else {
        scan::toc_scan_ok(eligible_text(chunk))
    }
}

/// The region-scoped analyzer's mutable state.
pub struct ToCFinder {
    start_found: bool,
    end_found: bool,
    found: Vec<TocEntry>,
}

impl View for ToCFinder {
    type V = TocState;

    closed spec fn view(&self) -> TocState {
        TocState {
            start_found: self.start_found,
            end_found: self.end_found,
            entries: self.found@.map_values(|e: TocEntry| e@),
        }
    }
}

impl ToCFinder {
    /// A fresh analyzer in its pristine state.
    pub fn new() -> (r: ToCFinder)
        ensures
            r@ == toc_cleared(),
    {
        let r = ToCFinder { start_found: false, end_found: false, found: Vec::new() };
        proof {
            assert(r@ =~= toc_cleared());
        }
        r
    }

    /// Resets all internal state to its initial, pre-any-chunk value;
    /// idempotent.
    pub fn clear(&mut self)
        ensures
            final(self)@ == toc_cleared(),
    {
        self.start_found = false;
        self.end_found = false;
        self.found = Vec::new();
        proof {
            assert(self@ =~= toc_cleared());
        }
    }

    /// Feeds one chunk. Success is exactly [`toc_step_ok`]: the scan fails
    /// only when the pattern engine gives up on the eligible text. On
    /// success the state advances exactly by [`toc_step`]; a failed call
    /// leaves the analyzer exactly as it was.
    pub fn process(&mut self, chunk: &str) -> (r: Result<(), Error>)
        ensures
            r is Ok <==> toc_step_ok(old(self)@, chunk@),
            r is Ok ==> final(self)@ == toc_step(old(self)@, chunk@),
            r is Err ==> r == Err::<(), Error>(Error::Scan) && final(self)@ == old(self)@,
    {
        if self.end_found {
            return Ok(());
        }
        let started: bool;
        let region: String;
        if !self.start_found {
            match scan::toc_heading_split(chunk) {
                None => {
                    return Ok(());
                },
                Some(rest) => {
                    started = true;
                    region = rest;
                },
            }
        } else {
            started = false;
            region = chunk.to_owned();
        }
        let pair = scan::split_before_blank_line(region.as_str());
        let elig = pair.0;
        proof {
            assert(elig@ == eligible_text(region@));
        }
        match scan::toc_entry_captures(elig.as_str()) {
            None => Err(Error::Scan),
            Some(raw) => {
                if started {
                    self.start_found = true;
                }
                if pair.1 {
                    self.end_found = true;
                }
                let ghost models = scan::toc_raw_entries(elig@).map_values(
                    |raw: (Seq<char>, Seq<char>, Seq<char>)| entry_model(raw),
                );
                let ghost start = self.found@.map_values(|e: TocEntry| e@);
                let ghost target = toc_step(old(self)@, chunk@);
                proof {
                    assert(target.start_found && self.start_found);
                    assert(target.end_found == self.end_found);
                    assert(target.entries == start + models);
                }
                let mut k: usize = 0;
                while k < raw.len()
                    invariant
                        0 <= k <= raw.len(),
                        raw.deep_view() == scan::toc_raw_entries(elig@),
                        models == scan::toc_raw_entries(elig@).map_values(
                            |raw: (Seq<char>, Seq<char>, Seq<char>)| entry_model(raw),
                        ),
                        target == toc_step(old(self)@, chunk@),
                        target.start_found == self.start_found,
                        target.end_found == self.end_found,
                        target.entries == start + models,
                        self.found@.map_values(|e: TocEntry| e@) =~= start + models.subrange(
                            0,
                            k as int,
                        ),
                    decreases raw.len() - k,
                {
                    let item = &raw[k];
                    let idx = text::trim(item.0.as_str());
                    let ttl = text::normalize_plain(item.1.as_str());
                    let pg_s = text::normalize_plain(item.2.as_str());
                    let pg = text::parse_page(pg_s.as_str());
                    let entry = TocEntry { index: idx, title: ttl, page: pg };
                    proof {
                        assert(raw.deep_view()[k as int] == raw@[k as int].deep_view());
                        assert(entry@ == models[k as int]);
                        assert(self.found@.push(entry).map_values(|e: TocEntry| e@)
                            =~= self.found@.map_values(|e: TocEntry| e@).push(entry@));
                        assert(start + models.subrange(0, k as int) + seq![models[k as int]]
                            =~= start + models.subrange(0, k + 1));
                    }
                    self.found.push(entry);
                    k = k + 1;
                }
                proof {
                    assert(models.subrange(0, models.len() as int) =~= models);
                    assert(self@ =~= target);
                }
                Ok(())
            },
        }
    }

    /// Drains the accumulated entries, in encounter order, and leaves the
    /// findings empty; the scanning window state is untouched.
    pub fn finalize(&mut self) -> (r: Vec<TocEntry>)
        ensures
            r@.map_values(|e: TocEntry| e@) == old(self)@.entries,
            final(self)@ == (TocState {
                start_found: old(self)@.start_found,
                end_found: old(self)@.end_found,
                entries: Seq::empty(),
            }),
    {
        let mut out: Vec<TocEntry> = Vec::new();
        core::mem::swap(&mut self.found, &mut out);
        proof {
            assert(self@ =~= TocState {
                start_found: old(self)@.start_found,
                end_found: old(self)@.end_found,
                entries: Seq::empty(),
            });
        }
        out
    }
}

impl crate::analyzer::Analyzer for ToCFinder {
    type Findings = Vec<TocEntry>;

    open spec fn wf(&self) -> bool {
        true
    }

    open spec fn cleared_model() -> TocState {
        toc_cleared()
    }

    open spec fn step(pre: TocState, chunk: Seq<char>) -> TocState {
        toc_step(pre, chunk)
    }

    open spec fn step_ok(pre: TocState, chunk: Seq<char>) -> bool {
        toc_step_ok(pre, chunk)
    }

    open spec fn finalized(pre: TocState, out: Vec<TocEntry>, post: TocState) -> bool {
        &&& out@.map_values(|e: TocEntry| e@) == pre.entries
        &&& post == (TocState {
            start_found: pre.start_found,
            end_found: pre.end_found,
            entries: Seq::<(Seq<char>, Seq<char>, u32)>::empty(),
        })
    }

    fn clear(&mut self) {
        ToCFinder::clear(self);
    }

    fn process(&mut self, chunk: &str) -> (r: Result<(), Error>) {
        ToCFinder::process(self, chunk)
    }

    fn finalize(&mut self) -> (r: Vec<TocEntry>) {
        ToCFinder::finalize(self)
    }
}

/// Law: a cleared analyzer finalizes to an empty entry list — its findings
/// reflect exactly the chunks seen since the clear, which are none.
pub proof fn lemma_toc_cleared_is_empty()
    ensures
        toc_cleared().entries == Seq::<(Seq<char>, Seq<char>, u32)>::empty(),
        !toc_cleared().start_found,
        !toc_cleared().end_found,
{
}

/// Law: a clear followed at once by a finalize yields an empty entry list,
/// whatever came before the clear.
pub proof fn lemma_clear_then_finalize_empty(out: Vec<TocEntry>, post: TocState)
    requires
        <ToCFinder as crate::analyzer::Analyzer>::finalized(toc_cleared(), out, post),
    ensures
        out@.len() == 0,
{
    assert(out@.map_values(|e: TocEntry| e@).len() == out@.len());
}

/// Law: once the end delimiter has fired, every further chunk is ignored
/// until the next clear; appending chunks after the end-transition chunk
/// never changes the outcome.
pub proof fn lemma_toc_done_absorbs(st: TocState, chunk: Seq<char>)
    requires
        st.end_found,
    ensures
        toc_step(st, chunk) == st,
{
}

/// Law: the state only advances along its three stations — a step never
/// unsets a flag once set, and already-appended entries stay, in order, as
/// a prefix of the new list. (A failed call leaves the state untouched, by
/// the `process` contract.)
pub proof fn lemma_toc_step_monotone(pre: TocState, chunk: Seq<char>)
    ensures
        pre.start_found ==> toc_step(pre, chunk).start_found,
        pre.end_found ==> toc_step(pre, chunk).end_found,
        pre.entries.len() <= toc_step(pre, chunk).entries.len(),
        toc_step(pre, chunk).entries.subrange(0, pre.entries.len() as int) == pre.entries,
{
    let post = toc_step(pre, chunk);
    assert(post.entries.subrange(0, pre.entries.len() as int) =~= pre.entries);
}

/// Law: while the start delimiter has not been seen, a chunk without it
/// leaves the analyzer exactly as it was.
pub proof fn lemma_toc_waiting_ignores(st: TocState, chunk: Seq<char>)
    requires
        !st.start_found,
        !st.end_found,
        scan::toc_heading_rest(chunk) is None,
    ensures
        toc_step(st, chunk) == st,
{
}

} // verus!
