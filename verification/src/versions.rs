//! The accumulating category-set analyzer. It keeps, for each fixed
//! category of cryptographic-scheme mentions, a set of unique normalized
//! match strings; matches are gathered per chunk and deduplicated across
//! the whole document. Each category has its own fold policy: some fold
//! case, the RSA category also folds the interchangeable separators `-`
//! and `_` to spaces, and the rest preserve source casing exactly.

use vstd::prelude::*;

use crate::errors::Error;
use crate::scan;
use crate::text;

verus! {

/// The RSA key-size pattern.
pub open spec fn rsa_pattern_spec() -> Seq<char> {
    r"(?i)rsa(?:_?-?\s?\d{3,4}(?:/\d{3,4})?){1}"@
}

/// The EAL assurance-level pattern ('+'-qualified levels included).
pub open spec fn eal_pattern_spec() -> Seq<char> {
    r"(?i)eal\s?-?\d{1}\s?\+?"@
}

/// The ECC key-size pattern.
pub open spec fn ecc_pattern_spec() -> Seq<char> {
    r"(?i)ecc(?:\s?-?\d{1,4})"@
}

/// The DES-variant pattern; its qualifier words carry category-specific
/// casing rules.
pub open spec fn des_pattern_spec() -> Seq<char> {
    r"(?i)(?:Triple|Double|3-key\s?T?|3|(?-i)T(?i)|2-key\s?T?|Single|SW){1}-?\s?Des|(?i)Des\d{1}"@
}

/// The SHA-variant pattern.
pub open spec fn sha_pattern_spec() -> Seq<char> {
    r"(?i)sha\d?\s?(?:-?\s?\d?/?\d{1,3})"@
}

/// The Java Card product-version pattern.
pub open spec fn java_card_pattern_spec() -> Seq<char> {
    r"(?i)java\s?card\s?-?(?:\d\.?){1,8}"@
}

/// The GlobalPlatform product-version pattern.
pub open spec fn global_platform_pattern_spec() -> Seq<char> {
    r"(?i)global\s?-?platform\s?-?(?:\d\.?){1,8}"@
}

fn rsa_pattern() -> (r: &'static str)
    ensures
        r@ == rsa_pattern_spec(),
{
    r"(?i)rsa(?:_?-?\s?\d{3,4}(?:/\d{3,4})?){1}"
}

fn eal_pattern() -> (r: &'static str)
    ensures
        r@ == eal_pattern_spec(),
{
    r"(?i)eal\s?-?\d{1}\s?\+?"
}

fn ecc_pattern() -> (r: &'static str)
    ensures
        r@ == ecc_pattern_spec(),
{
    r"(?i)ecc(?:\s?-?\d{1,4})"
}

fn des_pattern() -> (r: &'static str)
    ensures
        r@ == des_pattern_spec(),
{
    r"(?i)(?:Triple|Double|3-key\s?T?|3|(?-i)T(?i)|2-key\s?T?|Single|SW){1}-?\s?Des|(?i)Des\d{1}"
}

fn sha_pattern() -> (r: &'static str)
    ensures
        r@ == sha_pattern_spec(),
{
    r"(?i)sha\d?\s?(?:-?\s?\d?/?\d{1,3})"
}

fn java_card_pattern() -> (r: &'static str)
    ensures
        r@ == java_card_pattern_spec(),
{
    r"(?i)java\s?card\s?-?(?:\d\.?){1,8}"
}

fn global_platform_pattern() -> (r: &'static str)
    ensures
        r@ == global_platform_pattern_spec(),
{
    r"(?i)global\s?-?platform\s?-?(?:\d\.?){1,8}"
}

/// Whether every category pattern compiles; fatal at startup when not.
pub open spec fn patterns_ok() -> bool {
    &&& scan::regex_ok(eal_pattern_spec())
    &&& scan::regex_ok(rsa_pattern_spec())
    &&& scan::regex_ok(sha_pattern_spec())
    &&& scan::regex_ok(des_pattern_spec())
    &&& scan::regex_ok(ecc_pattern_spec())
    &&& scan::regex_ok(java_card_pattern_spec())
    &&& scan::regex_ok(global_platform_pattern_spec())
}

/// The mathematical state: one set of unique normalized match strings per
/// category.
#[verifier::ext_equal]
pub ghost struct VersionState {
    pub eal: Set<Seq<char>>,
    pub rsa: Set<Seq<char>>,
    pub sha: Set<Seq<char>>,
    pub des: Set<Seq<char>>,
    pub ecc: Set<Seq<char>>,
    pub java_card: Set<Seq<char>>,
    pub global_platform: Set<Seq<char>>,
}

/// The set of views of the strings held in a list.
pub open spec fn set_of(v: Seq<String>) -> Set<Seq<char>> {
    v.map_values(|s: String| s@).to_set()
}

/// True when no two strings of the list read the same: set semantics.
pub open spec fn no_dup_views(v: Seq<String>) -> bool {
    forall|i: int, j: int| 0 <= i < j < v.len() ==> v[i]@ != v[j]@
}

/// The set of images of a sequence under `f`.
pub open spec fn map_set(ms: Seq<Seq<char>>, f: spec_fn(Seq<char>) -> Seq<char>) -> Set<Seq<char>> {
    ms.map_values(f).to_set()
}

/// A category's fold policy for normalizing its matches.
#[derive(Clone, Copy)]
pub enum FoldPolicy {
    /// Trim and fold line breaks; keep source casing.
    Preserve,
    /// Trim, fold line breaks, upper-case.
    Upper,
    /// Trim, fold line breaks and the separators `-` and `_`, upper-case.
    UpperSep,
}

/// The normalized form of one match under a fold policy.
pub open spec fn norm_of(policy: FoldPolicy, m: Seq<char>) -> Seq<char> {
    match policy {
        FoldPolicy::Preserve => text::normalize_plain_spec(m),
        FoldPolicy::Upper => text::normalize_upper_spec(m),
        FoldPolicy::UpperSep => text::normalize_upper_sep_spec(m),
    }
}

/// The matches normalized under a fold policy, as a set.
pub open spec fn norm_set(policy: FoldPolicy, ms: Seq<Seq<char>>) -> Set<Seq<char>> {
    map_set(ms, |m: Seq<char>| norm_of(policy, m))
}

/// The pristine, pre-any-chunk state: every category empty.
pub open spec fn ver_cleared() -> VersionState {
    VersionState {
        eal: Set::empty(),
        rsa: Set::empty(),
        sha: Set::empty(),
        des: Set::empty(),
        ecc: Set::empty(),
        java_card: Set::empty(),
        global_platform: Set::empty(),
    }
}

/// What one `process` call does: each category's set grows by the
/// normalized matches of its own pattern in the chunk — a set union, so a
/// mention seen before adds nothing.
pub open spec fn ver_step(pre: VersionState, chunk: Seq<char>) -> VersionState {
    VersionState {
        eal: pre.eal.union(
            norm_set(FoldPolicy::Upper, scan::regex_matches(eal_pattern_spec(), chunk)),
        ),
        rsa: pre.rsa.union(
            norm_set(FoldPolicy::UpperSep, scan::regex_matches(rsa_pattern_spec(), chunk)),
        ),
        sha: pre.sha.union(
            norm_set(FoldPolicy::Upper, scan::regex_matches(sha_pattern_spec(), chunk)),
        ),
        des: pre.des.union(
            norm_set(FoldPolicy::Preserve, scan::regex_matches(des_pattern_spec(), chunk)),
        ),
        ecc: pre.ecc.union(
            norm_set(FoldPolicy::Upper, scan::regex_matches(ecc_pattern_spec(), chunk)),
        ),
        java_card: pre.java_card.union(
            norm_set(FoldPolicy::Preserve, scan::regex_matches(java_card_pattern_spec(), chunk)),
        ),
        global_platform: pre.global_platform.union(
            norm_set(
                FoldPolicy::Preserve,
                scan::regex_matches(global_platform_pattern_spec(), chunk),
            ),
        ),
    }
}

proof fn lemma_push_view_set(v: Seq<String>, s: String)
    ensures
        set_of(v.push(s)) == set_of(v).insert(s@),
{
    let f = |x: String| x@;
    let m = v.map_values(f);
    assert(v.push(s).map_values(f) =~= m.push(s@));
    assert forall|x: Seq<char>| m.push(s@).contains(x) implies m.contains(x) || x == s@ by {
        let i = choose|i: int| 0 <= i < m.push(s@).len() && m.push(s@)[i] == x;
        if i < m.len() {
            assert(m[i] == x);
        }
    }
    assert forall|x: Seq<char>| m.contains(x) implies m.push(s@).contains(x) by {
        let i = choose|i: int| 0 <= i < m.len() && m[i] == x;
        assert(m.push(s@)[i] == x);
    }
    assert(m.push(s@)[m.len() as int] == s@);
    assert(m.push(s@).contains(s@));
    assert(set_of(v.push(s)) =~= set_of(v).insert(s@));
}

proof fn lemma_map_set_take_step(ms: Seq<Seq<char>>, f: spec_fn(Seq<char>) -> Seq<char>, j: int)
    requires
        0 <= j < ms.len(),
    ensures
        map_set(ms.subrange(0, j + 1), f) == map_set(ms.subrange(0, j), f).insert(f(ms[j])),
{
    let a = ms.subrange(0, j);
    let b = ms.subrange(0, j + 1);
    assert(b =~= a.push(ms[j]));
    let ma = a.map_values(f);
    let y = f(ms[j]);
    let mb = ma.push(y);
    assert(b.map_values(f) =~= mb);
    assert forall|x: Seq<char>| mb.contains(x) implies ma.contains(x) || x == y by {
        let i = choose|i: int| 0 <= i < mb.len() && mb[i] == x;
        if i < ma.len() {
            assert(ma[i] == x);
        }
    }
    assert forall|x: Seq<char>| ma.contains(x) implies mb.contains(x) by {
        let i = choose|i: int| 0 <= i < ma.len() && ma[i] == x;
        assert(mb[i] == x);
    }
    assert(mb[ma.len() as int] == y);
    assert(mb.contains(y));
    assert(map_set(b, f) =~= map_set(a, f).insert(y));
}

fn contains_view(v: &Vec<String>, s: &String) -> (r: bool)
    ensures
        r == set_of(v@).contains(s@),
{
    let ghost m = v@.map_values(|x: String| x@);
    let mut j: usize = 0;
    while j < v.len()
        invariant
            0 <= j <= v@.len(),
            m == v@.map_values(|x: String| x@),
            forall|i: int| 0 <= i < j ==> v@[i]@ != s@,
        decreases v@.len() - j,
    {
        if v[j].eq(s) {
            proof {
                assert(m[j as int] == s@);
            }
            return true;
        }
        j = j + 1;
    }
    proof {
        assert forall|i: int| 0 <= i < m.len() implies m[i] != s@ by {
            assert(m[i] == v@[i]@);
        }
    }
    false
}

/// Inserts one normalized match, keeping set semantics: a string already
/// present (by contents) is not stored again.
fn insert_unique(dst: &mut Vec<String>, s: String)
    requires
        no_dup_views(old(dst)@),
    ensures
        no_dup_views(final(dst)@),
        set_of(final(dst)@) == set_of(old(dst)@).insert(s@),
{
    if contains_view(dst, &s) {
        proof {
            assert(set_of(dst@) =~= set_of(dst@).insert(s@));
        }
    } else {
        proof {
            lemma_push_view_set(dst@, s);
            assert forall|i: int| 0 <= i < dst@.len() implies dst@[i]@ != s@ by {
                assert(dst@.map_values(|x: String| x@)[i] == dst@[i]@);
            }
        }
        dst.push(s);
    }
}

/// Normalizes every match for one category under the category's fold
/// policy and inserts it into that category's set.
fn insert_all(dst: &mut Vec<String>, ms: &Vec<String>, policy: FoldPolicy)
    requires
        no_dup_views(old(dst)@),
    ensures
        no_dup_views(final(dst)@),
        set_of(final(dst)@) == set_of(old(dst)@).union(norm_set(policy, ms.deep_view())),
{
    let ghost f = |m: Seq<char>| norm_of(policy, m);
    let mut j: usize = 0;
    while j < ms.len()
        invariant
            0 <= j <= ms@.len(),
            no_dup_views(dst@),
            f == (|m: Seq<char>| norm_of(policy, m)),
            set_of(dst@) == set_of(old(dst)@).union(
                map_set(ms.deep_view().subrange(0, j as int), f),
            ),
        decreases ms@.len() - j,
    {
        let n = match policy {
            FoldPolicy::Preserve => text::normalize_plain(ms[j].as_str()),
            FoldPolicy::Upper => text::normalize_upper(ms[j].as_str()),
            FoldPolicy::UpperSep => text::normalize_upper_sep(ms[j].as_str()),
        };
        proof {
            assert(ms.deep_view()[j as int] == ms@[j as int]@);
            assert(n@ == f(ms.deep_view()[j as int]));
            lemma_map_set_take_step(ms.deep_view(), f, j as int);
        }
        let ghost before = set_of(dst@);
        insert_unique(dst, n);
        proof {
            assert(set_of(dst@) =~= set_of(old(dst)@).union(
                map_set(ms.deep_view().subrange(0, j + 1), f),
            ));
        }
        j = j + 1;
    }
    proof {
        assert(ms.deep_view().subrange(0, ms.deep_view().len() as int) =~= ms.deep_view());
    }
}

/// The finalized category mapping: one unordered, deduplicated list of
/// normalized mentions per category.
pub struct VersionFindings {
    pub eal: Vec<String>,
    pub rsa: Vec<String>,
    pub des: Vec<String>,
    pub sha: Vec<String>,
    pub ecc: Vec<String>,
    pub java_card: Vec<String>,
    pub global_platform: Vec<String>,
}

/// The category-set analyzer's mutable state.
pub struct VersionFinder {
    eal: Vec<String>,
    rsa: Vec<String>,
    sha: Vec<String>,
    des: Vec<String>,
    ecc: Vec<String>,
    java_card: Vec<String>,
    global_platform: Vec<String>,
}

impl View for VersionFinder {
    type V = VersionState;

    closed spec fn view(&self) -> VersionState {
        VersionState {
            eal: set_of(self.eal@),
            rsa: set_of(self.rsa@),
            sha: set_of(self.sha@),
            des: set_of(self.des@),
            ecc: set_of(self.ecc@),
            java_card: set_of(self.java_card@),
            global_platform: set_of(self.global_platform@),
        }
    }
}

impl VersionFinder {
    /// Well-formed: every category list has set semantics (no two equal
    /// strings) and every category pattern compiles.
    pub closed spec fn wf(&self) -> bool {
        &&& no_dup_views(self.eal@)
        &&& no_dup_views(self.rsa@)
        &&& no_dup_views(self.sha@)
        &&& no_dup_views(self.des@)
        &&& no_dup_views(self.ecc@)
        &&& no_dup_views(self.java_card@)
        &&& no_dup_views(self.global_platform@)
        &&& patterns_ok()
    }

    /// A fresh analyzer. Fails, before any document is processed, exactly
    /// when some category pattern does not compile.
    pub fn new() -> (r: Result<VersionFinder, Error>)
        ensures
            r matches Ok(f) ==> f.wf() && f@ == ver_cleared(),
            r is Ok <==> patterns_ok(),
            r is Err ==> r == Err::<VersionFinder, Error>(Error::Pattern),
    {
        let ok = scan::regex_compiles(eal_pattern()) && scan::regex_compiles(rsa_pattern())
            && scan::regex_compiles(sha_pattern()) && scan::regex_compiles(des_pattern())
            && scan::regex_compiles(ecc_pattern()) && scan::regex_compiles(java_card_pattern())
            && scan::regex_compiles(global_platform_pattern());
        if ok {
            let f = VersionFinder {
                eal: Vec::new(),
                rsa: Vec::new(),
                sha: Vec::new(),
                des: Vec::new(),
                ecc: Vec::new(),
                java_card: Vec::new(),
                global_platform: Vec::new(),
            };
            proof {
                assert(set_of(Seq::<String>::empty()) =~= Set::<Seq<char>>::empty());
                assert(f@ =~= ver_cleared());
            }
            Ok(f)
        } else {
            Err(Error::Pattern)
        }
    }

    /// Resets every category to empty; idempotent.
    pub fn clear(&mut self)
        requires
            old(self).wf(),
        ensures
            final(self).wf(),
            final(self)@ == ver_cleared(),
    {
        self.eal = Vec::new();
        self.rsa = Vec::new();
        self.sha = Vec::new();
        self.des = Vec::new();
        self.ecc = Vec::new();
        self.java_card = Vec::new();
        self.global_platform = Vec::new();
        proof {
            assert(set_of(Seq::<String>::empty()) =~= Set::<Seq<char>>::empty());
            assert(self@ =~= ver_cleared());
        }
    }

    /// Feeds one chunk: every category's pattern is evaluated on it and the
    /// normalized matches are added to that category's set. Never fails at
    /// runtime.
    pub fn process(&mut self, chunk: &str) -> (r: Result<(), Error>)
        requires
            old(self).wf(),
        ensures
            final(self).wf(),
            r is Ok,
            final(self)@ == ver_step(old(self)@, chunk@),
    {
        match scan::regex_find_all(eal_pattern(), chunk) {
            Some(ms) => insert_all(&mut self.eal, &ms, FoldPolicy::Upper),
            None => {
                proof {
                    assert(false);
                }
                return Err(Error::Scan);
            },
        }
        match scan::regex_find_all(rsa_pattern(), chunk) {
            Some(ms) => insert_all(&mut self.rsa, &ms, FoldPolicy::UpperSep),
            None => {
                proof {
                    assert(false);
                }
                return Err(Error::Scan);
            },
        }
        match scan::regex_find_all(sha_pattern(), chunk) {
            Some(ms) => insert_all(&mut self.sha, &ms, FoldPolicy::Upper),
            None => {
                proof {
                    assert(false);
                }
                return Err(Error::Scan);
            },
        }
        match scan::regex_find_all(des_pattern(), chunk) {
            Some(ms) => insert_all(&mut self.des, &ms, FoldPolicy::Preserve),
            None => {
                proof {
                    assert(false);
                }
                return Err(Error::Scan);
            },
        }
        match scan::regex_find_all(ecc_pattern(), chunk) {
            Some(ms) => insert_all(&mut self.ecc, &ms, FoldPolicy::Upper),
            None => {
                proof {
                    assert(false);
                }
                return Err(Error::Scan);
            },
        }
        match scan::regex_find_all(java_card_pattern(), chunk) {
            Some(ms) => insert_all(&mut self.java_card, &ms, FoldPolicy::Preserve),
            None => {
                proof {
                    assert(false);
                }
                return Err(Error::Scan);
            },
        }
        match scan::regex_find_all(global_platform_pattern(), chunk) {
            Some(ms) => insert_all(&mut self.global_platform, &ms, FoldPolicy::Preserve),
            None => {
                proof {
                    assert(false);
                }
                return Err(Error::Scan);
            },
        }
        proof {
            assert(self@ =~= ver_step(old(self)@, chunk@));
        }
        Ok(())
    }

    /// Drains every category into an unordered, deduplicated list and
    /// returns the full category mapping, leaving every category empty.
    pub fn finalize(&mut self) -> (r: VersionFindings)
        requires
            old(self).wf(),
        ensures
            final(self).wf(),
            final(self)@ == ver_cleared(),
            set_of(r.eal@) == old(self)@.eal && no_dup_views(r.eal@),
            set_of(r.rsa@) == old(self)@.rsa && no_dup_views(r.rsa@),
            set_of(r.sha@) == old(self)@.sha && no_dup_views(r.sha@),
            set_of(r.des@) == old(self)@.des && no_dup_views(r.des@),
            set_of(r.ecc@) == old(self)@.ecc && no_dup_views(r.ecc@),
            set_of(r.java_card@) == old(self)@.java_card && no_dup_views(r.java_card@),
            set_of(r.global_platform@) == old(self)@.global_platform && no_dup_views(
                r.global_platform@,
            ),
    {
        let mut eal: Vec<String> = Vec::new();
        let mut rsa: Vec<String> = Vec::new();
        let mut sha: Vec<String> = Vec::new();
        let mut des: Vec<String> = Vec::new();
        let mut ecc: Vec<String> = Vec::new();
        let mut java_card: Vec<String> = Vec::new();
        let mut global_platform: Vec<String> = Vec::new();
        core::mem::swap(&mut self.eal, &mut eal);
        core::mem::swap(&mut self.rsa, &mut rsa);
        core::mem::swap(&mut self.sha, &mut sha);
        core::mem::swap(&mut self.des, &mut des);
        core::mem::swap(&mut self.ecc, &mut ecc);
        core::mem::swap(&mut self.java_card, &mut java_card);
        core::mem::swap(&mut self.global_platform, &mut global_platform);
        proof {
            assert(set_of(Seq::<String>::empty()) =~= Set::<Seq<char>>::empty());
            assert(self@ =~= ver_cleared());
        }
        VersionFindings { eal, rsa, des, sha, ecc, java_card, global_platform }
    }
}

impl crate::analyzer::Analyzer for VersionFinder {
    type Findings = VersionFindings;

    closed spec fn wf(&self) -> bool {
        VersionFinder::wf(self)
    }

    open spec fn cleared_model() -> VersionState {
        ver_cleared()
    }

    open spec fn step(pre: VersionState, chunk: Seq<char>) -> VersionState {
        ver_step(pre, chunk)
    }

    open spec fn step_ok(pre: VersionState, chunk: Seq<char>) -> bool {
        true
    }

    open spec fn finalized(pre: VersionState, out: VersionFindings, post: VersionState) -> bool {
        &&& set_of(out.eal@) == pre.eal && no_dup_views(out.eal@)
        &&& set_of(out.rsa@) == pre.rsa && no_dup_views(out.rsa@)
        &&& set_of(out.sha@) == pre.sha && no_dup_views(out.sha@)
        &&& set_of(out.des@) == pre.des && no_dup_views(out.des@)
        &&& set_of(out.ecc@) == pre.ecc && no_dup_views(out.ecc@)
        &&& set_of(out.java_card@) == pre.java_card && no_dup_views(out.java_card@)
        &&& set_of(out.global_platform@) == pre.global_platform && no_dup_views(
            out.global_platform@,
        )
        &&& post == ver_cleared()
    }

    fn clear(&mut self) {
        VersionFinder::clear(self);
    }

    fn process(&mut self, chunk: &str) -> (r: Result<(), Error>) {
        VersionFinder::process(self, chunk)
    }

    fn finalize(&mut self) -> (r: VersionFindings) {
        VersionFinder::finalize(self)
    }
}

/// Law: a cleared analyzer finalizes to an empty mapping — every category
/// of the pristine state is the empty set.
pub proof fn lemma_ver_cleared_is_empty()
    ensures
        ver_cleared().eal == Set::<Seq<char>>::empty(),
        ver_cleared().rsa == Set::<Seq<char>>::empty(),
        ver_cleared().sha == Set::<Seq<char>>::empty(),
        ver_cleared().des == Set::<Seq<char>>::empty(),
        ver_cleared().ecc == Set::<Seq<char>>::empty(),
        ver_cleared().java_card == Set::<Seq<char>>::empty(),
        ver_cleared().global_platform == Set::<Seq<char>>::empty(),
{
}

proof fn lemma_empty_set_of(v: Seq<String>)
    requires
        set_of(v) == Set::<Seq<char>>::empty(),
    ensures
        v.len() == 0,
{
    if v.len() > 0 {
        assert(v.map_values(|s: String| s@)[0] == v[0]@);
        assert(v.map_values(|s: String| s@).contains(v[0]@));
        assert(set_of(v).contains(v[0]@));
    }
}

/// Law: a clear followed at once by a finalize yields an empty category
/// mapping — every category's list is empty, whatever came before the
/// clear.
pub proof fn lemma_clear_then_finalize_empty(out: VersionFindings, post: VersionState)
    requires
        <VersionFinder as crate::analyzer::Analyzer>::finalized(ver_cleared(), out, post),
    ensures
        out.eal@.len() == 0,
        out.rsa@.len() == 0,
        out.sha@.len() == 0,
        out.des@.len() == 0,
        out.ecc@.len() == 0,
        out.java_card@.len() == 0,
        out.global_platform@.len() == 0,
{
    lemma_empty_set_of(out.eal@);
    lemma_empty_set_of(out.rsa@);
    lemma_empty_set_of(out.sha@);
    lemma_empty_set_of(out.des@);
    lemma_empty_set_of(out.ecc@);
    lemma_empty_set_of(out.java_card@);
    lemma_empty_set_of(out.global_platform@);
}

/// Law: the categories are deduplicated sets, so feeding match text that
/// was already seen — in the same or in another chunk — adds nothing:
/// repeating a chunk leaves the state exactly as after the first time.
pub proof fn lemma_ver_step_idempotent(st: VersionState, chunk: Seq<char>)
    ensures
        ver_step(ver_step(st, chunk), chunk) == ver_step(st, chunk),
{
    assert(ver_step(ver_step(st, chunk), chunk) =~= ver_step(st, chunk));
}

} // verus!
