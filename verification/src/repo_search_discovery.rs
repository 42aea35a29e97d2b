//! Candidate discovery over native repo search: the candidate each
//! repo-search hit yields, the merge of the hits of successive attempts by
//! (path, anchor), the attempt loop as steps that the caller drives, and
//! the ranked, one-per-source narrowing of what was merged.
use vstd::prelude::*;
use crate::candidate_inputs::{line_context_cost, line_context_cost_spec, non_blank, repo_search_edge_kinds, section_edge_kinds, SearchStrategyFlowParserResolution};
use crate::flight_ids::{repo_relative_source_path, repo_relative_source_path_spec};
use crate::flight_query::{attempts_view, candidate_discovery_queries, candidate_discovery_queries_spec, RepoSearchAttempt};
use crate::markdown_candidates::{markdown_anchor, markdown_anchor_spec};
use crate::ordered::strictly_sorted;
use crate::repo_discovery::{
    attempt_label, candidate_discovery_attempt_label, is_discovery_ranking, narrow_candidate_discovery_results,
    narrowed, should_stop_candidate_discovery, unique_path_indices, DiscoveredCandidate,
    zero_candidates_message, MAX_FLIGHT_DISCOVERY_CANDIDATES, MIN_FLIGHT_CANDIDATE_DISCOVERY_ATTEMPTS_BEFORE_EARLY_STOP,
    REPO_SEARCH_LIMIT,
};
use crate::text::{chars_of, decimal, is_blank, join, seqs_of, string_of, trim, vec_eq};

verus! {

/// One repo-search hit with a path, and the parser resolution of that path.
#[derive(Clone, Debug)]
pub struct RepoSearchHit {
    pub relative_path: String,
    pub title: Option<String>,
    pub best_section: Option<String>,
    pub line_start: Option<usize>,
    pub line_end: Option<usize>,
    pub resolution: SearchStrategyFlowParserResolution,
}

/// The candidate that a repo-search hit yields. `attempt` and `hit` say
/// which attempt's answer, and which hit of it, it came from.
#[derive(Clone, Debug)]
pub struct RepoSearchCandidate {
    pub relative_path: String,
    pub heading_anchor: String,
    pub title: String,
    pub line_start: usize,
    pub line_end: usize,
    pub context_cost: usize,
    pub edge_kinds: Vec<String>,
    pub attempt: usize,
    pub hit: usize,
}

/// A present value that is not blank, trimmed.
pub open spec fn non_blank_spec(o: Option<String>) -> Option<Seq<char>> {
    match o {
        Some(v) => if is_blank(v@) {
            None
        } else {
            Some(trim(v@))
        },
        None => None,
    }
}

/// The title of a hit: its best section, else its title, else its path.
pub open spec fn hit_title(h: RepoSearchHit) -> Seq<char> {
    match non_blank_spec(h.best_section) {
        Some(t) => t,
        None => match non_blank_spec(h.title) {
            Some(t) => t,
            None => h.relative_path@,
        },
    }
}

/// The first line of a hit: its line, at least 1.
pub open spec fn hit_line_start(h: RepoSearchHit) -> usize {
    match h.line_start {
        Some(l) => if l >= 1 {
            l
        } else {
            1
        },
        None => 1,
    }
}

/// The last line of a hit: its end line, not before the first line.
pub open spec fn hit_line_end(h: RepoSearchHit) -> usize {
    let s = hit_line_start(h);
    match h.line_end {
        Some(e) => if e >= s {
            e
        } else {
            s
        },
        None => s,
    }
}

/// The candidate a hit yields, with its path as given.
pub open spec fn candidate_of_hit(c: RepoSearchCandidate, h: RepoSearchHit) -> bool {
    &&& c.relative_path@ == h.relative_path@
    &&& c.heading_anchor@ == markdown_anchor_spec(hit_title(h))
    &&& c.title@ == hit_title(h)
    &&& c.line_start == hit_line_start(h)
    &&& c.line_end == hit_line_end(h)
    &&& c.context_cost == line_context_cost_spec(hit_line_start(h) as int, hit_line_end(h) as int)
    &&& strictly_sorted(c.edge_kinds.deep_view())
    &&& forall|t: Seq<char>| #[trigger] c.edge_kinds.deep_view().contains(t) <==> (section_edge_kinds(
        h.relative_path@,
        hit_title(h),
        h.resolution,
    ).contains(t) || t == "arrow-flight"@ || t == "repo-search"@)
}

/// The candidate that a repo-search hit yields, with its path as given:
/// titled by its best section, else its title, else its path; its lines
/// at least 1 and in order; its edge kinds those of a section found by
/// repo search.
pub fn repo_search_candidate_from_hit(hit: &RepoSearchHit, attempt: usize, index: usize) -> (c:
    RepoSearchCandidate)
    ensures
        candidate_of_hit(c, *hit),
        c.attempt == attempt,
        c.hit == index,
{
    let title = match non_blank(
        match &hit.best_section {
            Some(s) => Some(s.as_str()),
            None => None,
        },
    ) {
        Some(t) => t,
        None => match non_blank(
            match &hit.title {
                Some(s) => Some(s.as_str()),
                None => None,
            },
        ) {
            Some(t) => t,
            None => string_of(&chars_of(hit.relative_path.as_str())),
        },
    };
    let line_start: usize = match hit.line_start {
        Some(l) => if l >= 1 {
            l
        } else {
            1
        },
        None => 1,
    };
    let line_end: usize = match hit.line_end {
        Some(e) => if e >= line_start {
            e
        } else {
            line_start
        },
        None => line_start,
    };
    RepoSearchCandidate {
        relative_path: string_of(&chars_of(hit.relative_path.as_str())),
        heading_anchor: markdown_anchor(title.as_str()),
        title: string_of(&chars_of(title.as_str())),
        line_start,
        line_end,
        context_cost: line_context_cost(line_start, line_end),
        edge_kinds: repo_search_edge_kinds(hit.relative_path.as_str(), title.as_str(), &hit.resolution),
        attempt,
        hit: index,
    }
}


/// The candidate a hit yields once merged: its path relative to the repo,
/// the rest as `candidate_of_hit` says.
pub open spec fn merged_candidate_of_hit(c: RepoSearchCandidate, repo_id: Seq<char>, h: RepoSearchHit) -> bool {
    &&& c.relative_path@ == repo_relative_source_path_spec(repo_id, h.relative_path@)
    &&& candidate_of_hit(RepoSearchCandidate { relative_path: h.relative_path, ..c }, h)
}

/// The key by which merged candidates are told apart.
pub open spec fn candidate_key(c: RepoSearchCandidate) -> (Seq<char>, Seq<char>) {
    (c.relative_path@, c.heading_anchor@)
}

/// The key of the candidate a hit yields once merged.
pub open spec fn hit_key(repo_id: Seq<char>, h: RepoSearchHit) -> (Seq<char>, Seq<char>) {
    (repo_relative_source_path_spec(repo_id, h.relative_path@), markdown_anchor_spec(hit_title(h)))
}

pub open spec fn keys_of(m: Seq<RepoSearchCandidate>) -> Seq<(Seq<char>, Seq<char>)> {
    m.map_values(|c: RepoSearchCandidate| candidate_key(c))
}

/// The hits, by index and in order, whose candidates a merge adds to
/// candidates with the given keys: the hits whose key is new.
pub open spec fn merged_from(
    prior: Seq<(Seq<char>, Seq<char>)>,
    repo_id: Seq<char>,
    hits: Seq<RepoSearchHit>,
) -> Seq<int>
    decreases hits.len(),
{
    if hits.len() == 0 {
        Seq::empty()
    } else {
        let prev = merged_from(prior, repo_id, hits.drop_last());
        let i = hits.len() - 1;
        let keys = prior + prev.map_values(|j: int| hit_key(repo_id, hits[j]));
        if keys.contains(hit_key(repo_id, hits[i])) {
            prev
        } else {
            prev.push(i)
        }
    }
}

proof fn lemma_merged_from_bounds(prior: Seq<(Seq<char>, Seq<char>)>, repo_id: Seq<char>, hits: Seq<RepoSearchHit>)
    ensures
        forall|k: int| 0 <= k < merged_from(prior, repo_id, hits).len() ==> 0 <= #[trigger] merged_from(prior, repo_id, hits)[k] < hits.len(),
    decreases hits.len(),
{
    if hits.len() > 0 {
        lemma_merged_from_bounds(prior, repo_id, hits.drop_last());
        let prev = merged_from(prior, repo_id, hits.drop_last());
        let r = merged_from(prior, repo_id, hits);
        let i = hits.len() - 1;
        let keys = prior + prev.map_values(|j: int| hit_key(repo_id, hits[j]));
        if !keys.contains(hit_key(repo_id, hits[i])) {
            assert(r == prev.push(i));
            assert forall|k: int| 0 <= k < r.len() implies 0 <= #[trigger] r[k] < hits.len() by {
                if k < prev.len() {
                    assert(r[k] == prev[k]);
                }
            }
        } else {
            assert(r == prev);
        }
    }
}

/// The merge over the first `i + 1` hits extends that over the first `i`.
proof fn lemma_merged_from_step(prior: Seq<(Seq<char>, Seq<char>)>, repo_id: Seq<char>, hits: Seq<RepoSearchHit>, i: int)
    requires
        0 <= i < hits.len(),
    ensures
        ({
            let prev = merged_from(prior, repo_id, hits.take(i));
            let keys = prior + prev.map_values(|j: int| hit_key(repo_id, hits[j]));
            merged_from(prior, repo_id, hits.take(i + 1)) == if keys.contains(hit_key(repo_id, hits[i])) {
                prev
            } else {
                prev.push(i)
            }
        }),
{
    let t = hits.take(i + 1);
    assert(t.drop_last() =~= hits.take(i));
    lemma_merged_from_bounds(prior, repo_id, hits.take(i));
    let prev = merged_from(prior, repo_id, hits.take(i));
    assert(prev.map_values(|j: int| hit_key(repo_id, t[j])) =~= prev.map_values(|j: int| hit_key(repo_id, hits[j])));
}

/// Merging never repeats a key: where the prior keys are distinct, so are
/// the prior keys with those of the added hits.
pub proof fn lemma_merge_keeps_keys_distinct(
    prior: Seq<(Seq<char>, Seq<char>)>,
    repo_id: Seq<char>,
    hits: Seq<RepoSearchHit>,
)
    requires
        prior.no_duplicates(),
    ensures
        (prior + merged_from(prior, repo_id, hits).map_values(|j: int| hit_key(repo_id, hits[j]))).no_duplicates(),
    decreases hits.len(),
{
    if hits.len() > 0 {
        let d = hits.drop_last();
        lemma_merge_keeps_keys_distinct(prior, repo_id, d);
        lemma_merged_from_bounds(prior, repo_id, d);
        let prev = merged_from(prior, repo_id, d);
        let i = hits.len() - 1;
        let keys = prior + prev.map_values(|j: int| hit_key(repo_id, hits[j]));
        assert(prev.map_values(|j: int| hit_key(repo_id, d[j])) =~= prev.map_values(|j: int| hit_key(repo_id, hits[j])));
        let r = merged_from(prior, repo_id, hits);
        if r == prev.push(i) {
            assert(!keys.contains(hit_key(repo_id, hits[i])));
            assert(prior + r.map_values(|j: int| hit_key(repo_id, hits[j])) =~= keys.push(hit_key(repo_id, hits[i])));
            assert forall|a: int, b: int| 0 <= a < b < keys.len() + 1 implies keys.push(hit_key(repo_id, hits[i]))[a] != keys.push(hit_key(repo_id, hits[i]))[b] by {
                if b == keys.len() {
                    assert(keys.push(hit_key(repo_id, hits[i]))[a] == keys[a]);
                }
            }
        }
    }
}

fn key_seen(merged: &Vec<RepoSearchCandidate>, path: &String, anchor: &String) -> (b: bool)
    ensures
        b == keys_of(merged@).contains((path@, anchor@)),
{
    let mut i: usize = 0;
    while i < merged.len()
        invariant
            i <= merged.len(),
            forall|j: int| 0 <= j < i ==> keys_of(merged@)[j] != (path@, anchor@),
        decreases merged.len() - i,
    {
        if vec_eq(&chars_of(merged[i].relative_path.as_str()), &chars_of(path.as_str())) && vec_eq(
            &chars_of(merged[i].heading_anchor.as_str()),
            &chars_of(anchor.as_str()),
        ) {
            assert(keys_of(merged@)[i as int] == (path@, anchor@));
            return true;
        }
        i = i + 1;
    }
    false
}

/// Whether `now` is `before` with the candidates of the listed hits added,
/// in order, each made by the given attempt.
pub open spec fn extends_with(
    now: Seq<RepoSearchCandidate>,
    before: Seq<RepoSearchCandidate>,
    repo_id: Seq<char>,
    hits: Seq<RepoSearchHit>,
    added: Seq<int>,
    attempt: usize,
) -> bool {
    &&& now.len() == before.len() + added.len()
    &&& forall|k: int| 0 <= k < before.len() ==> #[trigger] now[k] == before[k]
    &&& forall|k: int|
        0 <= k < added.len() ==> {
            &&& merged_candidate_of_hit(#[trigger] now[before.len() + k], repo_id, hits[added[k]])
            &&& now[before.len() + k].attempt == attempt
            &&& now[before.len() + k].hit == added[k]
        }
}

/// Merges the candidates of one attempt's hits (see `merged_from`).
pub fn merge_repo_search_hits(
    merged: &mut Vec<RepoSearchCandidate>,
    repo_id: &str,
    hits: &Vec<RepoSearchHit>,
    attempt: usize,
)
    requires
        forall|k: int| 0 <= k < old(merged).len() ==> #[trigger] keys_of(old(merged)@)[k] == candidate_key(old(merged)@[k]),
    ensures
        extends_with(
            final(merged)@,
            old(merged)@,
            repo_id@,
            hits@,
            merged_from(keys_of(old(merged)@), repo_id@, hits@),
            attempt,
        ),
{
    let ghost before = merged@;
    let ghost prior = keys_of(merged@);
    let mut i: usize = 0;
    while i < hits.len()
        invariant
            i <= hits.len(),
            prior == keys_of(before),
            extends_with(merged@, before, repo_id@, hits@, merged_from(prior, repo_id@, hits@.take(i as int)), attempt),
            keys_of(merged@) == prior + merged_from(prior, repo_id@, hits@.take(i as int)).map_values(
                |j: int| hit_key(repo_id@, hits@[j]),
            ),
        decreases hits.len() - i,
    {
        proof {
            lemma_merged_from_step(prior, repo_id@, hits@, i as int);
            lemma_merged_from_bounds(prior, repo_id@, hits@.take(i as int));
        }
        let ghost prev = merged_from(prior, repo_id@, hits@.take(i as int));
        {
            let c = repo_search_candidate_from_hit(&hits[i], attempt, i);
            let path = repo_relative_source_path(repo_id, c.relative_path.as_str());
            if !key_seen(merged, &path, &c.heading_anchor) {
                let ghost mid = merged@;
                let c2 = RepoSearchCandidate { relative_path: path, ..c };
                merged.push(c2);
                proof {
                    assert(merged@ =~= mid.push(c2));
                    assert(keys_of(merged@) =~= keys_of(mid).push(candidate_key(c2)));
                    let added = prev.push(i as int);
                    assert(added.map_values(|j: int| hit_key(repo_id@, hits@[j])) =~= prev.map_values(
                        |j: int| hit_key(repo_id@, hits@[j]),
                    ).push(hit_key(repo_id@, hits@[i as int])));
                    assert(candidate_key(c2) == hit_key(repo_id@, hits@[i as int]));
                    assert forall|k: int| 0 <= k < before.len() implies #[trigger] merged@[k] == before[k] by {
                        assert(merged@[k] == mid[k]);
                    }
                    assert forall|k: int| 0 <= k < added.len() implies {
                        &&& merged_candidate_of_hit(#[trigger] merged@[before.len() + k], repo_id@, hits@[added[k]])
                        &&& merged@[before.len() + k].attempt == attempt
                        &&& merged@[before.len() + k].hit == added[k]
                    } by {
                        if k < prev.len() {
                            assert(merged@[before.len() + k] == mid[before.len() + k]);
                        } else {
                            assert(merged@[before.len() + k] == c2);
                            assert(RepoSearchCandidate { relative_path: hits@[i as int].relative_path, ..c2 } == RepoSearchCandidate { relative_path: hits@[i as int].relative_path, ..c });
                        }
                    }
                }
            }
        }
        i = i + 1;
    }
    assert(hits@.take(hits.len() as int) =~= hits@);
}


/// The next thing to do in candidate discovery.
#[derive(Clone, Debug)]
pub enum DiscoveryStep {
    /// Run this repo search and hand its hits to `on_search_hits`.
    Search { query: String, path_prefix: String, limit: usize },
    /// Discovery is done; the merged candidates are the answer.
    Finished,
    /// No attempt found a candidate.
    Failed(String),
}

/// Candidate discovery over repo search, driven by the caller.
#[derive(Clone, Debug)]
pub struct RepoSearchCandidateDiscovery {
    pub repo_id: String,
    pub attempts: Vec<RepoSearchAttempt>,
    pub attempt: usize,
    pub merged: Vec<RepoSearchCandidate>,
    pub done: bool,
}

/// The error when no attempt found a candidate.
pub open spec fn discovery_exhausted_message(attempts: Seq<(Seq<char>, Seq<char>)>) -> Seq<char> {
    "SearchStrategyFlow repo-search candidate discovery returned zero page-index-ready candidate rows after "@
        + decimal(attempts.len()) + " attempts: "@ + join(
        attempts.map_values(|a: (Seq<char>, Seq<char>)| attempt_label(a.0, a.1)),
        "; "@,
    )
}

/// Whether a step runs the repo search of an attempt.
pub open spec fn searches(step: DiscoveryStep, a: (Seq<char>, Seq<char>)) -> bool {
    step matches DiscoveryStep::Search { query, path_prefix, limit } && query@ == a.0 && path_prefix@
        == a.1 && limit == REPO_SEARCH_LIMIT
}

impl RepoSearchCandidateDiscovery {
    /// The merged keys are distinct, and while discovery runs an attempt
    /// is at hand.
    pub open spec fn wf(&self) -> bool {
        &&& keys_of(self.merged@).no_duplicates()
        &&& !self.done ==> self.attempt < self.attempts.len()
    }

    fn search(&self, i: usize) -> (step: DiscoveryStep)
        requires
            i < self.attempts.len(),
        ensures
            searches(step, self.attempts@[i as int]@),
    {
        DiscoveryStep::Search {
            query: string_of(&chars_of(self.attempts[i].query.as_str())),
            path_prefix: string_of(&chars_of(self.attempts[i].path_prefix.as_str())),
            limit: REPO_SEARCH_LIMIT,
        }
    }

    fn exhausted(&self) -> (m: String)
        ensures
            m@ == discovery_exhausted_message(attempts_view(self.attempts@)),
    {
        let mut notes: Vec<Vec<char>> = Vec::new();
        let mut i: usize = 0;
        while i < self.attempts.len()
            invariant
                i <= self.attempts.len(),
                seqs_of(notes@) == attempts_view(self.attempts@).take(i as int).map_values(
                    |a: (Seq<char>, Seq<char>)| attempt_label(a.0, a.1),
                ),
            decreases self.attempts.len() - i,
        {
            let note = chars_of(
                candidate_discovery_attempt_label(
                    self.attempts[i].query.as_str(),
                    self.attempts[i].path_prefix.as_str(),
                ).as_str(),
            );
            let ghost before = seqs_of(notes@);
            notes.push(note);
            assert(seqs_of(notes@) =~= before.push(note@));
            assert(attempts_view(self.attempts@).take(i + 1) =~= attempts_view(self.attempts@).take(
                i as int,
            ).push(self.attempts@[i as int]@));
            i = i + 1;
            assert(seqs_of(notes@) =~= attempts_view(self.attempts@).take(i as int).map_values(
                |a: (Seq<char>, Seq<char>)| attempt_label(a.0, a.1),
            ));
        }
        assert(attempts_view(self.attempts@).take(self.attempts.len() as int) =~= attempts_view(
            self.attempts@,
        ));
        zero_candidates_message(&notes)
    }

    /// Starts discovery for an intent: its repo-search attempts (see
    /// `candidate_discovery_queries`) and the first search, or the error
    /// when there is none.
    pub fn start(intent: &str, repo_id: &str) -> (r: (Self, DiscoveryStep))
        ensures
            r.0.wf(),
            r.0.repo_id@ == repo_id@,
            attempts_view(r.0.attempts@) == candidate_discovery_queries_spec(intent@),
            r.0.merged.len() == 0,
            r.0.attempts.len() > 0 ==> !r.0.done && r.0.attempt == 0 && searches(r.1, r.0.attempts@[0]@),
            r.0.attempts.len() == 0 ==> r.0.done && (r.1 matches DiscoveryStep::Failed(m) && m@
                == discovery_exhausted_message(attempts_view(r.0.attempts@))),
    {
        let attempts = candidate_discovery_queries(intent);
        let d = RepoSearchCandidateDiscovery {
            repo_id: string_of(&chars_of(repo_id)),
            attempts,
            attempt: 0,
            merged: Vec::new(),
            done: false,
        };
        if d.attempts.len() == 0 {
            let msg = d.exhausted();
            (RepoSearchCandidateDiscovery { done: true, ..d }, DiscoveryStep::Failed(msg))
        } else {
            let step = d.search(0);
            (d, step)
        }
    }

    /// Takes the hits of the pending search and merges their candidates.
    /// Discovery finishes after the last attempt, or early once
    /// `MIN_FLIGHT_CANDIDATE_DISCOVERY_ATTEMPTS_BEFORE_EARLY_STOP` attempts
    /// ran and the merge holds `MAX_FLIGHT_DISCOVERY_CANDIDATES` distinct
    /// source paths; it then finishes with what was merged, or fails when
    /// nothing was. Otherwise it runs the next attempt.
    pub fn on_search_hits(&mut self, hits: &Vec<RepoSearchHit>) -> (step: DiscoveryStep)
        requires
            old(self).wf(),
            !old(self).done,
        ensures
            final(self).wf(),
            final(self).repo_id@ == old(self).repo_id@,
            attempts_view(final(self).attempts@) == attempts_view(old(self).attempts@),
            extends_with(
                final(self).merged@,
                old(self).merged@,
                old(self).repo_id@,
                hits@,
                merged_from(keys_of(old(self).merged@), old(self).repo_id@, hits@),
                old(self).attempt,
            ),
            ({
                let attempted = old(self).attempt + 1;
                let stop = early_stop(attempted, final(self).merged@) || attempted >= old(self).attempts.len();
                &&& stop ==> final(self).done && (final(self).merged.len() > 0 ==> step is Finished) && (
                    final(self).merged.len() == 0 ==> (step matches DiscoveryStep::Failed(m) && m@
                    == discovery_exhausted_message(attempts_view(old(self).attempts@))))
                &&& !stop ==> !final(self).done && final(self).attempt == attempted && searches(
                    step,
                    old(self).attempts@[attempted]@,
                )
            }),
    {
        let attempt = self.attempt;
        let ghost before = self.merged@;
        merge_repo_search_hits(&mut self.merged, self.repo_id.as_str(), hits, attempt);
        proof {
            let added = merged_from(keys_of(before), self.repo_id@, hits@);
            lemma_merge_keeps_keys_distinct(keys_of(before), self.repo_id@, hits@);
            assert(keys_of(self.merged@) =~= keys_of(before) + added.map_values(|j: int| hit_key(self.repo_id@, hits@[j]))) by {
                assert forall|k: int| 0 <= k < self.merged@.len() implies keys_of(self.merged@)[k] == (keys_of(before) + added.map_values(|j: int| hit_key(self.repo_id@, hits@[j])))[k] by {
                    if k >= before.len() {
                        let m = k - before.len();
                        assert(merged_candidate_of_hit(self.merged@[before.len() + m], self.repo_id@, hits@[added[m]]));
                    }
                }
            }
        }
        let paths = merged_source_paths(&self.merged);
        let stop = should_stop_candidate_discovery(attempt + 1, &paths) || attempt + 1 >= self.attempts.len();
        if stop {
            self.done = true;
            if self.merged.len() > 0 {
                DiscoveryStep::Finished
            } else {
                DiscoveryStep::Failed(self.exhausted())
            }
        } else {
            self.attempt = attempt + 1;
            self.search(attempt + 1)
        }
    }
}

impl RepoSearchCandidateDiscovery {
    /// What discovery hands on from its merge: the merged candidates with
    /// the order keys of their calibrated evidence coverage and graph score
    /// (one per candidate, computed by the caller), and the indices of the
    /// ones kept (see `narrow_candidate_discovery_results`).
    pub fn narrowed_candidates(&self, evidence_keys: &Vec<u64>, graph_keys: &Vec<u64>) -> (r: (
        Vec<DiscoveredCandidate>,
        Vec<usize>,
    ))
        requires
            evidence_keys@.len() == self.merged@.len(),
            graph_keys@.len() == self.merged@.len(),
        ensures
            r.0@.len() == self.merged@.len(),
            forall|k: int| 0 <= k < r.0@.len() ==> {
                &&& (#[trigger] r.0@[k]).relative_path@ == self.merged@[k].relative_path@
                &&& r.0@[k].heading_anchor@ == self.merged@[k].heading_anchor@
                &&& r.0@[k].title@ == self.merged@[k].title@
                &&& r.0@[k].evidence_key == evidence_keys@[k]
                &&& r.0@[k].graph_key == graph_keys@[k]
            },
            exists|order: Seq<int>| #[trigger] is_discovery_ranking(r.0@, order)
                && r.1@.map_values(|k: usize| k as int) == narrowed(r.0@, order),
    {
        let mut cands: Vec<DiscoveredCandidate> = Vec::new();
        let mut i: usize = 0;
        while i < self.merged.len()
            invariant
                i <= self.merged.len(),
                evidence_keys@.len() == self.merged@.len(),
                graph_keys@.len() == self.merged@.len(),
                cands@.len() == i,
                forall|k: int| 0 <= k < i ==> {
                    &&& (#[trigger] cands@[k]).relative_path@ == self.merged@[k].relative_path@
                    &&& cands@[k].heading_anchor@ == self.merged@[k].heading_anchor@
                    &&& cands@[k].title@ == self.merged@[k].title@
                    &&& cands@[k].evidence_key == evidence_keys@[k]
                    &&& cands@[k].graph_key == graph_keys@[k]
                },
            decreases self.merged.len() - i,
        {
            let m = &self.merged[i];
            cands.push(DiscoveredCandidate {
                relative_path: string_of(&chars_of(m.relative_path.as_str())),
                heading_anchor: string_of(&chars_of(m.heading_anchor.as_str())),
                title: string_of(&chars_of(m.title.as_str())),
                evidence_key: evidence_keys[i],
                graph_key: graph_keys[i],
            });
            i = i + 1;
        }
        let picked = narrow_candidate_discovery_results(&cands);
        (cands, picked)
    }
}

/// The source paths of merged candidates, in order.
pub open spec fn merged_paths(m: Seq<RepoSearchCandidate>) -> Seq<Seq<char>> {
    m.map_values(|c: RepoSearchCandidate| c.relative_path@)
}

/// Discovery may stop early: enough attempts ran and the merge holds
/// enough distinct source paths.
pub open spec fn early_stop(attempted: int, merged: Seq<RepoSearchCandidate>) -> bool {
    attempted >= MIN_FLIGHT_CANDIDATE_DISCOVERY_ATTEMPTS_BEFORE_EARLY_STOP && unique_path_indices(
        merged_paths(merged),
        merged.len() as int,
    ).len() >= MAX_FLIGHT_DISCOVERY_CANDIDATES
}

fn merged_source_paths(m: &Vec<RepoSearchCandidate>) -> (r: Vec<String>)
    ensures
        r.deep_view() == merged_paths(m@),
        r@.len() == m@.len(),
{
    let mut r: Vec<String> = Vec::new();
    let mut i: usize = 0;
    while i < m.len()
        invariant
            i <= m.len(),
            r.deep_view() == merged_paths(m@).take(i as int),
        decreases m.len() - i,
    {
        let ghost before = r.deep_view();
        r.push(string_of(&chars_of(m[i].relative_path.as_str())));
        assert(r.deep_view() =~= before.push(m@[i as int].relative_path@));
        assert(merged_paths(m@).take(i + 1) =~= merged_paths(m@).take(i as int).push(m@[i as int].relative_path@));
        i = i + 1;
    }
    assert(merged_paths(m@).take(m.len() as int) =~= merged_paths(m@));
    assert(r.deep_view().len() == r@.len());
    r
}

} // verus!
