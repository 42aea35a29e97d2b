//! Repo-search attempts for `SearchStrategyFlow` candidate discovery and route materialization.
use vstd::prelude::*;
use crate::flight_ids::{repo_relative_source_path_spec, repo_relative_source_path_vec};
use crate::text::{ascii_lower, copy_vec, char_is_ascii_alnum, char_to_ascii_lower, chars_of, is_ascii_alnum, is_ascii_digit, is_ascii_lower, list_contains, str_views, is_ascii_upper, join, join_vecs, lit, push_unique_vec, rposition, rposition_exec, seqs_of, string_of, strings_of, sub_vec, trim, trim_matches, trim_matches_vec, trim_slashes, trim_slashes_vec, trim_vec, vec_eq};

verus! {

/// Appends `cur` to the finished terms when it has at least two characters.
pub open spec fn keep_term(terms: Seq<Seq<char>>, cur: Seq<char>) -> Seq<Seq<char>> {
    if cur.len() >= 2 {
        terms.push(cur)
    } else {
        terms
    }
}

/// Left-to-right scan of `s` into (finished terms, current term, previous was lowercase).
pub open spec fn scan_terms(s: Seq<char>) -> (Seq<Seq<char>>, Seq<char>, bool)
    decreases s.len(),
{
    if s.len() == 0 {
        (Seq::empty(), Seq::empty(), false)
    } else {
        let prev = scan_terms(s.drop_last());
        let c = s.last();
        if is_ascii_alnum(c) {
            if prev.2 && is_ascii_upper(c) && prev.1.len() > 0 {
                (keep_term(prev.0, prev.1), seq![ascii_lower(c)], is_ascii_lower(c))
            } else {
                (prev.0, prev.1.push(ascii_lower(c)), is_ascii_lower(c))
            }
        } else {
            (keep_term(prev.0, prev.1), Seq::empty(), false)
        }
    }
}

/// Lowercase ASCII alphanumeric words of `s`, split at every other character
/// and before an uppercase letter that follows a lowercase one; words shorter
/// than two characters are dropped.
pub open spec fn search_terms_spec(s: Seq<char>) -> Seq<Seq<char>> {
    let st = scan_terms(s);
    keep_term(st.0, st.1)
}

/// A term as `search_terms` emits it.
pub open spec fn is_search_term(t: Seq<char>) -> bool {
    t.len() >= 2 && forall|i: int| 0 <= i < t.len() ==> (is_ascii_digit(#[trigger] t[i])
        || is_ascii_lower(t[i]))
}

pub fn search_terms_vec(v: &[char]) -> (r: Vec<Vec<char>>)
    ensures
        seqs_of(r@) == search_terms_spec(v@),
{
    let mut terms: Vec<Vec<char>> = Vec::new();
    let mut current: Vec<char> = Vec::new();
    let mut previous_was_lowercase = false;
    let mut i: usize = 0;
    while i < v.len()
        invariant
            i <= v.len(),
            (seqs_of(terms@), current@, previous_was_lowercase) == scan_terms(
                v@.subrange(0, i as int),
            ),
        decreases v.len() - i,
    {
        let c = v[i];
        let ghost before = v@.subrange(0, i as int);
        assert(v@.subrange(0, i + 1).drop_last() =~= before);
        if char_is_ascii_alnum(c) {
            if previous_was_lowercase && 'A' <= c && c <= 'Z' && current.len() > 0 {
                if current.len() >= 2 {
                    terms.push(current);
                    assert(seqs_of(terms@) =~= keep_term(scan_terms(before).0, scan_terms(before).1));
                }
                current = Vec::new();
            }
            current.push(char_to_ascii_lower(c));
            previous_was_lowercase = 'a' <= c && c <= 'z';
            assert(current@ =~= scan_terms(v@.subrange(0, i + 1)).1);
        } else {
            if current.len() >= 2 {
                terms.push(current);
                assert(seqs_of(terms@) =~= keep_term(scan_terms(before).0, scan_terms(before).1));
            }
            current = Vec::new();
            previous_was_lowercase = false;
            assert(current@ =~= Seq::<char>::empty());
        }
        i = i + 1;
    }
    assert(v@.subrange(0, v.len() as int) =~= v@);
    if current.len() >= 2 {
        terms.push(current);
        assert(seqs_of(terms@) =~= search_terms_spec(v@));
    }
    terms
}

/// `search_terms` on text.
pub fn search_terms(text: &str) -> (r: Vec<String>)
    ensures
        r.deep_view() == search_terms_spec(text@),
{
    strings_of(&search_terms_vec(&chars_of(text)))
}


proof fn lemma_ascii_lower_word_char(c: char)
    requires
        is_ascii_alnum(c),
    ensures
        is_ascii_digit(ascii_lower(c)) || is_ascii_lower(ascii_lower(c)),
{
}

proof fn lemma_scan_terms_shape(s: Seq<char>)
    ensures
        forall|k: int| 0 <= k < scan_terms(s).0.len() ==> is_search_term(#[trigger] scan_terms(s).0[k]),
        forall|i: int|
            0 <= i < scan_terms(s).1.len() ==> (is_ascii_digit(#[trigger] scan_terms(s).1[i])
                || is_ascii_lower(scan_terms(s).1[i])),
    decreases s.len(),
{
    if s.len() > 0 {
        lemma_scan_terms_shape(s.drop_last());
        let p = scan_terms(s.drop_last());
        let st = scan_terms(s);
        let c = s.last();
        if p.1.len() >= 2 {
            assert(is_search_term(p.1));
        }
        if is_ascii_alnum(c) {
            lemma_ascii_lower_word_char(c);
            if p.2 && is_ascii_upper(c) && p.1.len() > 0 {
                assert forall|k: int| 0 <= k < st.0.len() implies is_search_term(#[trigger] st.0[k]) by {
                    if k < p.0.len() {
                        assert(st.0[k] == p.0[k]);
                    }
                }
            } else {
                assert(st.0 == p.0);
                assert forall|i: int| 0 <= i < st.1.len() implies (is_ascii_digit(#[trigger] st.1[i])
                    || is_ascii_lower(st.1[i])) by {
                    if i < p.1.len() {
                        assert(st.1[i] == p.1[i]);
                    }
                }
            }
        } else {
            assert forall|k: int| 0 <= k < st.0.len() implies is_search_term(#[trigger] st.0[k]) by {
                if k < p.0.len() {
                    assert(st.0[k] == p.0[k]);
                }
            }
        }
    }
}

/// Every search term is a word of at least two lowercase ASCII letters or digits.
pub proof fn lemma_search_terms_are_words(s: Seq<char>)
    ensures
        forall|k: int|
            0 <= k < search_terms_spec(s).len() ==> is_search_term(#[trigger] search_terms_spec(s)[k]),
{
    lemma_scan_terms_shape(s);
}

/// Whether every character is an ASCII digit.
pub open spec fn all_digits(t: Seq<char>) -> bool {
    forall|i: int| 0 <= i < t.len() ==> is_ascii_digit(#[trigger] t[i])
}

fn all_digits_vec(t: &[char]) -> (b: bool)
    ensures
        b == all_digits(t@),
{
    let mut i: usize = 0;
    while i < t.len()
        invariant
            i <= t.len(),
            forall|j: int| 0 <= j < i ==> is_ascii_digit(#[trigger] t@[j]),
        decreases t.len() - i,
    {
        if !('0' <= t[i] && t[i] <= '9') {
            return false;
        }
        i = i + 1;
    }
    true
}

/// Drops a leading `stage` term, and the stage number right after it.
pub open spec fn stage_stripped_terms_spec(terms: Seq<Seq<char>>) -> Seq<Seq<char>> {
    if terms.len() == 0 || terms[0] != "stage"@ {
        terms
    } else if terms.len() == 1 {
        Seq::empty()
    } else if all_digits(terms[1]) {
        terms.subrange(2, terms.len() as int)
    } else {
        terms.subrange(1, terms.len() as int)
    }
}

fn subrange_terms(terms: &Vec<Vec<char>>, a: usize) -> (r: Vec<Vec<char>>)
    requires
        a <= terms.len(),
    ensures
        seqs_of(r@) == seqs_of(terms@).subrange(a as int, terms.len() as int),
{
    let mut r: Vec<Vec<char>> = Vec::new();
    let mut i = a;
    while i < terms.len()
        invariant
            a <= i <= terms.len(),
            seqs_of(r@) == seqs_of(terms@).subrange(a as int, i as int),
        decreases terms.len() - i,
    {
        let t = sub_vec(&terms[i], 0, terms[i].len());
        assert(t@ =~= terms@[i as int]@);
        let ghost prev = seqs_of(r@);
        r.push(t);
        assert(seqs_of(r@) =~= prev.push(t@));
        i = i + 1;
        assert(seqs_of(r@) =~= seqs_of(terms@).subrange(a as int, i as int));
    }
    r
}

pub fn stage_stripped_terms(terms: &Vec<Vec<char>>) -> (r: Vec<Vec<char>>)
    ensures
        seqs_of(r@) == stage_stripped_terms_spec(seqs_of(terms@)),
{
    let stage = lit("stage");
    if terms.len() == 0 || !vec_eq(&terms[0], &stage) {
        return subrange_terms(terms, 0);
    }
    if terms.len() == 1 {
        let r: Vec<Vec<char>> = Vec::new();
        assert(seqs_of(r@) =~= Seq::<Seq<char>>::empty());
        return r;
    }
    if all_digits_vec(&terms[1]) {
        subrange_terms(terms, 2)
    } else {
        subrange_terms(terms, 1)
    }
}

/// The repo-search query for a route: the anchor's terms without the stage
/// prefix, or the source path when the anchor gives none.
pub open spec fn repo_search_query_spec(source_path: Seq<char>, heading_anchor: Option<Seq<char>>) -> Seq<char> {
    match heading_anchor {
        None => source_path,
        Some(anchor) => {
            let effective = stage_stripped_terms_spec(search_terms_spec(anchor));
            if effective.len() == 0 {
                source_path
            } else {
                join(effective, " "@)
            }
        },
    }
}

pub fn repo_search_query_vec(source_path: &[char], heading_anchor: Option<&[char]>) -> (r: Vec<char>)
    ensures
        r@ == repo_search_query_spec(
            source_path@,
            match heading_anchor {
                Some(a) => Some(a@),
                None => None,
            },
        ),
{
    match heading_anchor {
        None => sub_vec(source_path, 0, source_path.len()),
        Some(anchor) => {
            let terms = search_terms_vec(anchor);
            let effective = stage_stripped_terms(&terms);
            if effective.len() == 0 {
                sub_vec(source_path, 0, source_path.len())
            } else {
                join_vecs(&effective, &lit(" "))
            }
        },
    }
}

pub fn repo_search_query(source_path: &str, heading_anchor: Option<&str>) -> (r: String)
    ensures
        r@ == repo_search_query_spec(
            source_path@,
            match heading_anchor {
                Some(a) => Some(a@),
                None => None,
            },
        ),
{
    let source = chars_of(source_path);
    let r = match heading_anchor {
        None => repo_search_query_vec(&source, None),
        Some(a) => {
            let anchor = chars_of(a);
            repo_search_query_vec(&source, Some(anchor.as_slice()))
        },
    };
    string_of(&r)
}


/// One repo-search attempt: a query and an optional path prefix (empty for none).
#[derive(Clone, Debug, PartialEq, Eq)]
pub struct RepoSearchAttempt {
    pub query: String,
    pub path_prefix: String,
}

impl View for RepoSearchAttempt {
    type V = (Seq<char>, Seq<char>);

    open spec fn view(&self) -> (Seq<char>, Seq<char>) {
        (self.query@, self.path_prefix@)
    }
}

pub open spec fn attempts_view(list: Seq<RepoSearchAttempt>) -> Seq<(Seq<char>, Seq<char>)> {
    list.map_values(|a: RepoSearchAttempt| a@)
}

/// Working form of an attempt list.
pub type AttemptBuf = Vec<(Vec<char>, Vec<char>)>;

pub open spec fn pairs_of(list: Seq<(Vec<char>, Vec<char>)>) -> Seq<(Seq<char>, Seq<char>)> {
    list.map_values(|p: (Vec<char>, Vec<char>)| (p.0@, p.1@))
}

/// Adds the trimmed attempt unless its query is blank or the list already holds it.
pub open spec fn push_attempt(
    list: Seq<(Seq<char>, Seq<char>)>,
    query: Seq<char>,
    path_prefix: Seq<char>,
) -> Seq<(Seq<char>, Seq<char>)> {
    let q = trim(query);
    if q.len() == 0 {
        list
    } else {
        let a = (q, trim(path_prefix));
        if list.contains(a) {
            list
        } else {
            list.push(a)
        }
    }
}

/// Adds the requested attempts one after another.
pub open spec fn push_all(
    list: Seq<(Seq<char>, Seq<char>)>,
    reqs: Seq<(Seq<char>, Seq<char>)>,
) -> Seq<(Seq<char>, Seq<char>)>
    decreases reqs.len(),
{
    if reqs.len() == 0 {
        list
    } else {
        push_attempt(push_all(list, reqs.drop_last()), reqs.last().0, reqs.last().1)
    }
}

/// Pushing two request lists in turn is pushing their concatenation.
pub proof fn lemma_push_all_append(
    list: Seq<(Seq<char>, Seq<char>)>,
    a: Seq<(Seq<char>, Seq<char>)>,
    b: Seq<(Seq<char>, Seq<char>)>,
)
    ensures
        push_all(list, a + b) == push_all(push_all(list, a), b),
    decreases b.len(),
{
    if b.len() == 0 {
        assert(a + b =~= a);
    } else {
        assert((a + b).drop_last() =~= a + b.drop_last());
        lemma_push_all_append(list, a, b.drop_last());
    }
}

/// An attempt list as candidate discovery keeps it: every query non-blank,
/// query and prefix trimmed, no attempt twice.
pub open spec fn clean_attempts(list: Seq<(Seq<char>, Seq<char>)>) -> bool {
    &&& forall|k: int| 0 <= k < list.len() ==> (#[trigger] list[k]).0.len() > 0 && trim(list[k].0) == list[k].0
        && trim(list[k].1) == list[k].1
    &&& forall|a: int, b: int| 0 <= a < b < list.len() ==> #[trigger] list[a] != #[trigger] list[b]
}

/// The attempt that a request becomes: its trimmed query and prefix.
pub open spec fn trimmed_request(req: (Seq<char>, Seq<char>)) -> (Seq<char>, Seq<char>) {
    (trim(req.0), trim(req.1))
}

/// Adding requests to a clean attempt list keeps it clean and keeps what it
/// held in front; each request with a non-blank query ends up in it,
/// trimmed, and nothing else is added.
pub proof fn lemma_push_all_keeps_requests(list: Seq<(Seq<char>, Seq<char>)>, reqs: Seq<(Seq<char>, Seq<char>)>)
    requires
        clean_attempts(list),
    ensures
        clean_attempts(push_all(list, reqs)),
        list.len() <= push_all(list, reqs).len(),
        push_all(list, reqs).subrange(0, list.len() as int) == list,
        forall|k: int| 0 <= k < reqs.len() && trim((#[trigger] reqs[k]).0).len() > 0 ==> push_all(list, reqs).contains(
            trimmed_request(reqs[k]),
        ),
        forall|x: (Seq<char>, Seq<char>)| #[trigger] push_all(list, reqs).contains(x) ==> list.contains(x) || exists|k: int|
            0 <= k < reqs.len() && trim(reqs[k].0).len() > 0 && x == trimmed_request(#[trigger] reqs[k]),
    decreases reqs.len(),
{
    if reqs.len() > 0 {
        let init = reqs.drop_last();
        lemma_push_all_keeps_requests(list, init);
        let prev = push_all(list, init);
        let last = reqs.last();
        let r = push_all(list, reqs);
        crate::text::lemma_trim_idempotent(last.0);
        crate::text::lemma_trim_idempotent(last.1);
        assert(r == push_attempt(prev, last.0, last.1));
        if r.len() > prev.len() {
            assert(r == prev.push(trimmed_request(last)));
            assert(r.subrange(0, list.len() as int) =~= prev.subrange(0, list.len() as int));
            assert forall|a: int, b: int| 0 <= a < b < r.len() implies #[trigger] r[a] != #[trigger] r[b] by {
                assert(r[a] == prev[a]);
                if b < prev.len() {
                    assert(r[b] == prev[b]);
                } else {
                    assert(prev.contains(prev[a]));
                }
            }
            assert forall|k: int| 0 <= k < r.len() implies (#[trigger] r[k]).0.len() > 0 && trim(r[k].0) == r[k].0
                && trim(r[k].1) == r[k].1 by {
                if k < prev.len() {
                    assert(r[k] == prev[k]);
                }
            }
        }
        assert forall|k: int| 0 <= k < reqs.len() && trim((#[trigger] reqs[k]).0).len() > 0 implies r.contains(
            trimmed_request(reqs[k]),
        ) by {
            if k < init.len() {
                assert(init[k] == reqs[k]);
                let j = choose|j: int| 0 <= j < prev.len() && prev[j] == trimmed_request(init[k]);
                assert(r[j] == prev[j]);
            } else {
                assert(reqs[k] == last);
                if r.len() > prev.len() {
                    assert(r[prev.len() as int] == trimmed_request(last));
                } else {
                    let j = choose|j: int| 0 <= j < prev.len() && prev[j] == trimmed_request(last);
                    assert(r[j] == prev[j]);
                }
            }
        }
        assert forall|x: (Seq<char>, Seq<char>)| #[trigger] r.contains(x) implies list.contains(x) || exists|k: int|
            0 <= k < reqs.len() && trim(reqs[k].0).len() > 0 && x == trimmed_request(#[trigger] reqs[k]) by {
            let j = choose|j: int| 0 <= j < r.len() && r[j] == x;
            if j < prev.len() {
                assert(prev[j] == x);
                assert(prev.contains(x));
                if !list.contains(x) {
                    let k = choose|k: int| 0 <= k < init.len() && trim(init[k].0).len() > 0 && x == trimmed_request(
                        #[trigger] init[k],
                    );
                    assert(reqs[k] == init[k]);
                }
            } else {
                assert(reqs[reqs.len() - 1] == last);
            }
        }
    }
}

/// The candidate-discovery attempts: at most 32, each query non-blank and
/// trimmed, no attempt twice, the trimmed intent with no prefix first when it
/// is not blank, and, when fewer than 32 came out, every requested attempt.
pub proof fn lemma_candidate_discovery_queries_clean(intent: Seq<char>)
    ensures
        ({
            let q = candidate_discovery_queries_spec(intent);
            let reqs = candidate_discovery_requests(intent);
            &&& q.len() <= 32
            &&& clean_attempts(q)
            &&& trim(intent).len() > 0 ==> q.len() > 0 && q[0] == (trim(intent), ""@)
            &&& q.len() < 32 ==> forall|k: int| 0 <= k < reqs.len() && trim((#[trigger] reqs[k]).0).len() > 0
                ==> q.contains(trimmed_request(reqs[k]))
        }),
{
    let reqs = candidate_discovery_requests(intent);
    let empty = Seq::<(Seq<char>, Seq<char>)>::empty();
    lemma_push_all_keeps_requests(empty, reqs);
    let all = push_all(empty, reqs);
    let q = candidate_discovery_queries_spec(intent);
    if all.len() > 32 {
        assert(q == all.subrange(0, 32));
        assert forall|k: int| 0 <= k < q.len() implies (#[trigger] q[k]).0.len() > 0 && trim(q[k].0) == q[k].0
            && trim(q[k].1) == q[k].1 by {
            assert(q[k] == all[k]);
        }
        assert forall|a: int, b: int| 0 <= a < b < q.len() implies #[trigger] q[a] != #[trigger] q[b] by {
            assert(q[a] == all[a] && q[b] == all[b]);
        }
    }
    if trim(intent).len() > 0 {
        let head = seq![reqs[0]];
        assert(reqs =~= head + reqs.subrange(1, reqs.len() as int));
        lemma_push_all_append(empty, head, reqs.subrange(1, reqs.len() as int));
        let first = push_all(empty, head);
        assert(head.drop_last() =~= empty);
        crate::text::lemma_trim_idempotent(intent);
        reveal_strlit("");
        assert(trim(""@) =~= ""@);
        assert(reqs[0] == (trim(intent), ""@));
        assert(push_all(empty, head.drop_last()) == empty);
        assert(head.last() == (trim(intent), ""@));
        assert(first == push_attempt(empty, trim(intent), ""@));
        assert(!empty.contains((trim(intent), ""@)));
        assert(first =~= seq![(trim(intent), ""@)]);
        lemma_push_all_keeps_requests(first, reqs.subrange(1, reqs.len() as int));
        assert(all.subrange(0, 1) == first);
        assert(all[0] == first[0]);
    }
}

fn pair_eq(x: &(Vec<char>, Vec<char>), q: &[char], p: &[char]) -> (b: bool)
    ensures
        b == ((x.0@, x.1@) == (q@, p@)),
{
    vec_eq(&x.0, q) && vec_eq(&x.1, p)
}

pub fn push_repo_search_attempt(attempts: &mut AttemptBuf, query: &[char], path_prefix: &[char])
    ensures
        pairs_of(final(attempts)@) == push_attempt(pairs_of(old(attempts)@), query@, path_prefix@),
{
    let q = trim_vec(query);
    if q.len() == 0 {
        return;
    }
    let p = trim_vec(path_prefix);
    let mut i: usize = 0;
    while i < attempts.len()
        invariant
            i <= attempts.len(),
            q@ == trim(query@),
            p@ == trim(path_prefix@),
            attempts@ == old(attempts)@,
            forall|j: int| 0 <= j < i ==> pairs_of(attempts@)[j] != (q@, p@),
        decreases attempts.len() - i,
    {
        if pair_eq(&attempts[i], &q, &p) {
            assert(pairs_of(attempts@)[i as int] == (q@, p@));
            return;
        }
        i = i + 1;
    }
    let ghost before = pairs_of(attempts@);
    attempts.push((q, p));
    assert(pairs_of(attempts@) =~= before.push((trim(query@), trim(path_prefix@))));
}

pub fn push_requests(attempts: &mut AttemptBuf, reqs: &AttemptBuf)
    ensures
        pairs_of(final(attempts)@) == push_all(pairs_of(old(attempts)@), pairs_of(reqs@)),
{
    let mut i: usize = 0;
    while i < reqs.len()
        invariant
            i <= reqs.len(),
            pairs_of(attempts@) == push_all(
                pairs_of(old(attempts)@),
                pairs_of(reqs@).subrange(0, i as int),
            ),
        decreases reqs.len() - i,
    {
        push_repo_search_attempt(attempts, &reqs[i].0, &reqs[i].1);
        assert(pairs_of(reqs@).subrange(0, i + 1).drop_last() =~= pairs_of(reqs@).subrange(
            0,
            i as int,
        ));
        i = i + 1;
    }
    assert(pairs_of(reqs@).subrange(0, reqs.len() as int) =~= pairs_of(reqs@));
}

fn req(query: &str, path_prefix: &str) -> (r: (Vec<char>, Vec<char>))
    ensures
        r.0@ == query@,
        r.1@ == path_prefix@,
{
    (lit(query), lit(path_prefix))
}

/// Whether every needle is one of the terms.
pub open spec fn has_all_terms_spec(terms: Seq<Seq<char>>, needles: Seq<Seq<char>>) -> bool {
    forall|i: int| 0 <= i < needles.len() ==> terms.contains(#[trigger] needles[i])
}

pub fn has_all_terms(terms: &Vec<Vec<char>>, needles: &[&str]) -> (b: bool)
    ensures
        b == has_all_terms_spec(seqs_of(terms@), str_views(needles@)),
{
    let mut i: usize = 0;
    while i < needles.len()
        invariant
            i <= needles.len(),
            forall|j: int|
                0 <= j < i ==> seqs_of(terms@).contains(
                    #[trigger] str_views(needles@)[j],
                ),
        decreases needles.len() - i,
    {
        let needle = lit(needles[i]);
        if !list_contains(terms, &needle) {
            assert(!seqs_of(terms@).contains(str_views(needles@)[i as int]));
            return false;
        }
        i = i + 1;
    }
    true
}


pub open spec fn search_strategy_flow_needles() -> Seq<Seq<char>> {
    seq!["search"@, "strategy"@, "flow"@]
}

pub open spec fn page_index_needles() -> Seq<Seq<char>> {
    seq!["page"@, "index"@]
}

pub open spec fn link_graph_needles() -> Seq<Seq<char>> {
    seq!["link"@, "graph"@]
}

pub open spec fn search_strategy_needles() -> Seq<Seq<char>> {
    seq!["search"@, "strategy"@]
}

pub open spec fn graph_needles() -> Seq<Seq<char>> {
    seq!["graph"@]
}

pub open spec fn relation_needles() -> Seq<Seq<char>> {
    seq!["relation"@]
}

pub open spec fn reasoning_tree_needles() -> Seq<Seq<char>> {
    seq!["reasoning"@, "tree"@]
}

/// Exact anchors, each first under its home directory, then anywhere.
pub open spec fn exact_anchor_requests(terms: Seq<Seq<char>>) -> Seq<(Seq<char>, Seq<char>)> {
    (if has_all_terms_spec(terms, search_strategy_flow_needles()) {
        seq![("SearchStrategyFlow"@, "docs/30_search_strategy"@), ("SearchStrategyFlow"@, ""@)]
    } else {
        Seq::empty()
    }) + (if has_all_terms_spec(terms, page_index_needles()) {
        seq![("PageIndex"@, "docs/20_page_index"@), ("PageIndex"@, ""@)]
    } else {
        Seq::empty()
    }) + (if has_all_terms_spec(terms, link_graph_needles()) {
        seq![("LinkGraph"@, "docs/10_graph_compute"@), ("LinkGraph"@, ""@)]
    } else {
        Seq::empty()
    })
}

/// The exact-anchor attempts follow the terms: the `SearchStrategyFlow`
/// attempt under `docs/30_search_strategy` and then anywhere exactly when
/// the terms hold `search`, `strategy` and `flow`; the `PageIndex` attempts
/// under `docs/20_page_index` and anywhere exactly when they hold `page` and
/// `index`; the `LinkGraph` attempts under `docs/10_graph_compute` and
/// anywhere exactly when they hold `link` and `graph`. Without its terms a
/// family has no exact-anchor attempt at all.
pub proof fn lemma_exact_anchor_requests_follow_terms(terms: Seq<Seq<char>>)
    ensures
        ({
            let r = exact_anchor_requests(terms);
            let ssf = terms.contains("search"@) && terms.contains("strategy"@) && terms.contains("flow"@);
            let pi = terms.contains("page"@) && terms.contains("index"@);
            let lg = terms.contains("link"@) && terms.contains("graph"@);
            &&& ssf ==> exists|k: int| 0 <= k && k + 1 < r.len() && #[trigger] r[k] == ("SearchStrategyFlow"@, "docs/30_search_strategy"@)
                && r[k + 1] == ("SearchStrategyFlow"@, ""@)
            &&& !ssf ==> forall|k: int| 0 <= k < r.len() ==> (#[trigger] r[k]).0 != "SearchStrategyFlow"@
            &&& pi ==> exists|k: int| 0 <= k && k + 1 < r.len() && #[trigger] r[k] == ("PageIndex"@, "docs/20_page_index"@)
                && r[k + 1] == ("PageIndex"@, ""@)
            &&& !pi ==> forall|k: int| 0 <= k < r.len() ==> (#[trigger] r[k]).0 != "PageIndex"@
            &&& lg ==> exists|k: int| 0 <= k && k + 1 < r.len() && #[trigger] r[k] == ("LinkGraph"@, "docs/10_graph_compute"@)
                && r[k + 1] == ("LinkGraph"@, ""@)
            &&& !lg ==> forall|k: int| 0 <= k < r.len() ==> (#[trigger] r[k]).0 != "LinkGraph"@
        }),
{
    let n1 = search_strategy_flow_needles();
    let n2 = page_index_needles();
    let n3 = link_graph_needles();
    assert(has_all_terms_spec(terms, n1) <==> (terms.contains("search"@) && terms.contains("strategy"@)
        && terms.contains("flow"@))) by {
        assert(n1[0] == "search"@ && n1[1] == "strategy"@ && n1[2] == "flow"@);
    }
    assert(has_all_terms_spec(terms, n2) <==> (terms.contains("page"@) && terms.contains("index"@))) by {
        assert(n2[0] == "page"@ && n2[1] == "index"@);
    }
    assert(has_all_terms_spec(terms, n3) <==> (terms.contains("link"@) && terms.contains("graph"@))) by {
        assert(n3[0] == "link"@ && n3[1] == "graph"@);
    }
    reveal_strlit("SearchStrategyFlow");
    reveal_strlit("PageIndex");
    reveal_strlit("LinkGraph");
    assert("SearchStrategyFlow"@.len() != "PageIndex"@.len());
    assert("SearchStrategyFlow"@.len() != "LinkGraph"@.len());
    assert("PageIndex"@[0] != "LinkGraph"@[0]);
    let e1: Seq<(Seq<char>, Seq<char>)> = if has_all_terms_spec(terms, n1) {
        seq![("SearchStrategyFlow"@, "docs/30_search_strategy"@), ("SearchStrategyFlow"@, ""@)]
    } else {
        Seq::empty()
    };
    let e2: Seq<(Seq<char>, Seq<char>)> = if has_all_terms_spec(terms, n2) {
        seq![("PageIndex"@, "docs/20_page_index"@), ("PageIndex"@, ""@)]
    } else {
        Seq::empty()
    };
    let e3: Seq<(Seq<char>, Seq<char>)> = if has_all_terms_spec(terms, n3) {
        seq![("LinkGraph"@, "docs/10_graph_compute"@), ("LinkGraph"@, ""@)]
    } else {
        Seq::empty()
    };
    let r = exact_anchor_requests(terms);
    assert(r =~= e1 + e2 + e3);
    let l1 = e1.len() as int;
    let l2 = e2.len() as int;
    assert forall|k: int| 0 <= k < r.len() implies (k < l1 ==> (#[trigger] r[k]).0 == "SearchStrategyFlow"@)
        && (l1 <= k < l1 + l2 ==> r[k].0 == "PageIndex"@) && (l1 + l2 <= k ==> r[k].0 == "LinkGraph"@) by {
        if k < l1 {
            assert(r[k] == e1[k]);
        } else if k < l1 + l2 {
            assert(r[k] == e2[k - l1]);
        } else {
            assert(r[k] == e3[k - l1 - l2]);
        }
    }
    if has_all_terms_spec(terms, n1) {
        assert(r[0] == e1[0] && r[1] == e1[1]);
    }
    if has_all_terms_spec(terms, n2) {
        assert(r[l1] == e2[0] && r[l1 + 1] == e2[1]);
    }
    if has_all_terms_spec(terms, n3) {
        assert(r[l1 + l2] == e3[0] && r[l1 + l2 + 1] == e3[1]);
    }
}

/// Route hints: one phrase per route family that the terms point at.
pub open spec fn route_hint_requests(terms: Seq<Seq<char>>) -> Seq<(Seq<char>, Seq<char>)> {
    (if has_all_terms_spec(terms, search_strategy_needles()) {
        seq![("search strategy flow"@, "docs/30_search_strategy"@)]
    } else {
        Seq::empty()
    }) + (if has_all_terms_spec(terms, page_index_needles()) || has_all_terms_spec(
        terms,
        reasoning_tree_needles(),
    ) {
        seq![("page index reasoning tree"@, "docs/20_page_index"@)]
    } else {
        Seq::empty()
    }) + (if has_all_terms_spec(terms, link_graph_needles()) || has_all_terms_spec(
        terms,
        graph_needles(),
    ) || has_all_terms_spec(terms, relation_needles()) {
        seq![("link graph compute"@, "docs/10_graph_compute"@)]
    } else {
        Seq::empty()
    })
}

/// The route hints follow the terms: `search strategy flow` under
/// `docs/30_search_strategy` exactly when the terms hold `search` and
/// `strategy`; `page index reasoning tree` under `docs/20_page_index` exactly
/// when they hold `page` and `index`, or `reasoning` and `tree`; `link graph
/// compute` under `docs/10_graph_compute` exactly when they hold `graph` or
/// `relation`. The hints come in that order, one per family.
pub proof fn lemma_route_hints_follow_terms(terms: Seq<Seq<char>>)
    ensures
        ({
            let ss = terms.contains("search"@) && terms.contains("strategy"@);
            let pi = (terms.contains("page"@) && terms.contains("index"@)) || (terms.contains("reasoning"@)
                && terms.contains("tree"@));
            let lg = terms.contains("graph"@) || terms.contains("relation"@);
            let h1: Seq<(Seq<char>, Seq<char>)> = if ss {
                seq![("search strategy flow"@, "docs/30_search_strategy"@)]
            } else {
                Seq::empty()
            };
            let h2: Seq<(Seq<char>, Seq<char>)> = if pi {
                seq![("page index reasoning tree"@, "docs/20_page_index"@)]
            } else {
                Seq::empty()
            };
            let h3: Seq<(Seq<char>, Seq<char>)> = if lg {
                seq![("link graph compute"@, "docs/10_graph_compute"@)]
            } else {
                Seq::empty()
            };
            route_hint_requests(terms) == h1 + h2 + h3
        }),
{
    assert(has_all_terms_spec(terms, search_strategy_needles()) <==> (terms.contains("search"@) && terms.contains(
        "strategy"@,
    ))) by {
        assert(search_strategy_needles()[0] == "search"@ && search_strategy_needles()[1] == "strategy"@);
    }
    assert(has_all_terms_spec(terms, page_index_needles()) <==> (terms.contains("page"@) && terms.contains(
        "index"@,
    ))) by {
        assert(page_index_needles()[0] == "page"@ && page_index_needles()[1] == "index"@);
    }
    assert(has_all_terms_spec(terms, reasoning_tree_needles()) <==> (terms.contains("reasoning"@)
        && terms.contains("tree"@))) by {
        assert(reasoning_tree_needles()[0] == "reasoning"@ && reasoning_tree_needles()[1] == "tree"@);
    }
    assert(has_all_terms_spec(terms, link_graph_needles()) ==> terms.contains("graph"@)) by {
        assert(link_graph_needles()[1] == "graph"@);
    }
    assert(has_all_terms_spec(terms, graph_needles()) <==> terms.contains("graph"@)) by {
        assert(graph_needles()[0] == "graph"@);
    }
    assert(has_all_terms_spec(terms, relation_needles()) <==> terms.contains("relation"@)) by {
        assert(relation_needles()[0] == "relation"@);
    }
}

fn has_needles(terms: &Vec<Vec<char>>, needles: &[&str], Ghost(expected): Ghost<Seq<Seq<char>>>) -> (b: bool)
    requires
        str_views(needles@) == expected,
    ensures
        b == has_all_terms_spec(seqs_of(terms@), expected),
{
    has_all_terms(terms, needles)
}

pub fn exact_anchor_request_vec(terms: &Vec<Vec<char>>) -> (r: AttemptBuf)
    ensures
        pairs_of(r@) == exact_anchor_requests(seqs_of(terms@)),
{
    let n1 = ["search", "strategy", "flow"];
    assert(str_views(n1@) =~= search_strategy_flow_needles());
    let n2 = ["page", "index"];
    assert(str_views(n2@) =~= page_index_needles());
    let n3 = ["link", "graph"];
    assert(str_views(n3@) =~= link_graph_needles());
    let b1 = has_needles(terms, &n1, Ghost(search_strategy_flow_needles()));
    let b2 = has_needles(terms, &n2, Ghost(page_index_needles()));
    let b3 = has_needles(terms, &n3, Ghost(link_graph_needles()));
    let mut r: AttemptBuf = Vec::new();
    if b1 {
        r.push(req("SearchStrategyFlow", "docs/30_search_strategy"));
        r.push(req("SearchStrategyFlow", ""));
    }
    let ghost s1 = pairs_of(r@);
    if b2 {
        r.push(req("PageIndex", "docs/20_page_index"));
        r.push(req("PageIndex", ""));
    }
    let ghost s2 = pairs_of(r@);
    if b3 {
        r.push(req("LinkGraph", "docs/10_graph_compute"));
        r.push(req("LinkGraph", ""));
    }
    proof {
        let terms_v = seqs_of(terms@);
        let e1: Seq<(Seq<char>, Seq<char>)> = if b1 {
            seq![("SearchStrategyFlow"@, "docs/30_search_strategy"@), ("SearchStrategyFlow"@, ""@)]
        } else {
            Seq::empty()
        };
        let e2: Seq<(Seq<char>, Seq<char>)> = if b2 {
            seq![("PageIndex"@, "docs/20_page_index"@), ("PageIndex"@, ""@)]
        } else {
            Seq::empty()
        };
        let e3: Seq<(Seq<char>, Seq<char>)> = if b3 {
            seq![("LinkGraph"@, "docs/10_graph_compute"@), ("LinkGraph"@, ""@)]
        } else {
            Seq::empty()
        };
        assert(s1 =~= e1);
        assert(s2 =~= e1 + e2);
        assert(pairs_of(r@) =~= e1 + e2 + e3);
    }
    r
}

pub fn route_hint_request_vec(terms: &Vec<Vec<char>>) -> (r: AttemptBuf)
    ensures
        pairs_of(r@) == route_hint_requests(seqs_of(terms@)),
{
    let n1 = ["search", "strategy"];
    assert(str_views(n1@) =~= search_strategy_needles());
    let n2 = ["page", "index"];
    assert(str_views(n2@) =~= page_index_needles());
    let n3 = ["reasoning", "tree"];
    assert(str_views(n3@) =~= reasoning_tree_needles());
    let n4 = ["link", "graph"];
    assert(str_views(n4@) =~= link_graph_needles());
    let n5 = ["graph"];
    assert(str_views(n5@) =~= graph_needles());
    let n6 = ["relation"];
    assert(str_views(n6@) =~= relation_needles());
    let b1 = has_needles(terms, &n1, Ghost(search_strategy_needles()));
    let b2 = has_needles(terms, &n2, Ghost(page_index_needles())) || has_needles(
        terms,
        &n3,
        Ghost(reasoning_tree_needles()),
    );
    let b3 = has_needles(terms, &n4, Ghost(link_graph_needles())) || has_needles(
        terms,
        &n5,
        Ghost(graph_needles()),
    ) || has_needles(terms, &n6, Ghost(relation_needles()));
    let mut r: AttemptBuf = Vec::new();
    if b1 {
        r.push(req("search strategy flow", "docs/30_search_strategy"));
    }
    let ghost s1 = pairs_of(r@);
    if b2 {
        r.push(req("page index reasoning tree", "docs/20_page_index"));
    }
    let ghost s2 = pairs_of(r@);
    if b3 {
        r.push(req("link graph compute", "docs/10_graph_compute"));
    }
    proof {
        let e1: Seq<(Seq<char>, Seq<char>)> = if b1 {
            seq![("search strategy flow"@, "docs/30_search_strategy"@)]
        } else {
            Seq::empty()
        };
        let e2: Seq<(Seq<char>, Seq<char>)> = if b2 {
            seq![("page index reasoning tree"@, "docs/20_page_index"@)]
        } else {
            Seq::empty()
        };
        let e3: Seq<(Seq<char>, Seq<char>)> = if b3 {
            seq![("link graph compute"@, "docs/10_graph_compute"@)]
        } else {
            Seq::empty()
        };
        assert(s1 =~= e1);
        assert(s2 =~= e1 + e2);
        assert(pairs_of(r@) =~= e1 + e2 + e3);
    }
    r
}

pub fn push_exact_anchor_candidate_attempts(attempts: &mut AttemptBuf, terms: &Vec<Vec<char>>)
    ensures
        pairs_of(final(attempts)@) == push_all(
            pairs_of(old(attempts)@),
            exact_anchor_requests(seqs_of(terms@)),
        ),
{
    let reqs = exact_anchor_request_vec(terms);
    push_requests(attempts, &reqs);
}

pub fn push_route_hint_candidate_attempts(attempts: &mut AttemptBuf, terms: &Vec<Vec<char>>)
    ensures
        pairs_of(final(attempts)@) == push_all(
            pairs_of(old(attempts)@),
            route_hint_requests(seqs_of(terms@)),
        ),
{
    let reqs = route_hint_request_vec(terms);
    push_requests(attempts, &reqs);
}

/// Every run of `w` consecutive terms, joined by spaces, with no prefix.
pub open spec fn window_requests(terms: Seq<Seq<char>>, w: int) -> Seq<(Seq<char>, Seq<char>)> {
    if terms.len() < w {
        Seq::empty()
    } else {
        Seq::new(
            (terms.len() - w + 1) as nat,
            |i: int| (join(terms.subrange(i, i + w), " "@), ""@),
        )
    }
}

fn window_request_vec(terms: &Vec<Vec<char>>, w: usize) -> (r: AttemptBuf)
    requires
        w >= 1,
    ensures
        pairs_of(r@) == window_requests(seqs_of(terms@), w as int),
{
    let mut r: AttemptBuf = Vec::new();
    if terms.len() < w {
        assert(pairs_of(r@) =~= Seq::<(Seq<char>, Seq<char>)>::empty());
        return r;
    }
    let count = terms.len() - w + 1;
    let space = lit(" ");
    let mut i: usize = 0;
    while i < count
        invariant
            w >= 1,
            count == terms.len() - w + 1,
            i <= count,
            space@ == " "@,
            pairs_of(r@) == window_requests(seqs_of(terms@), w as int).subrange(0, i as int),
        decreases count - i,
    {
        let window = subrange_terms_to(terms, i, i + w);
        let q = join_vecs(&window, &space);
        let ghost before = pairs_of(r@);
        r.push((q, Vec::new()));
        assert(pairs_of(r@) =~= before.push((q@, Seq::<char>::empty())));
        assert(""@ == Seq::<char>::empty()) by {
            reveal_strlit("");
        }
        i = i + 1;
        assert(pairs_of(r@) =~= window_requests(seqs_of(terms@), w as int).subrange(0, i as int));
    }
    assert(window_requests(seqs_of(terms@), w as int).subrange(0, count as int) =~= window_requests(
        seqs_of(terms@),
        w as int,
    ));
    r
}

fn subrange_terms_to(terms: &Vec<Vec<char>>, a: usize, b: usize) -> (r: Vec<Vec<char>>)
    requires
        a <= b <= terms.len(),
    ensures
        seqs_of(r@) == seqs_of(terms@).subrange(a as int, b as int),
{
    let mut r: Vec<Vec<char>> = Vec::new();
    let mut i = a;
    while i < b
        invariant
            a <= i <= b <= terms.len(),
            seqs_of(r@) == seqs_of(terms@).subrange(a as int, i as int),
        decreases b - i,
    {
        let t = sub_vec(&terms[i], 0, terms[i].len());
        assert(t@ =~= terms@[i as int]@);
        let ghost prev = seqs_of(r@);
        r.push(t);
        assert(seqs_of(r@) =~= prev.push(t@));
        i = i + 1;
        assert(seqs_of(r@) =~= seqs_of(terms@).subrange(a as int, i as int));
    }
    r
}

/// Each term of at least four characters on its own, with no prefix.
pub open spec fn long_term_requests(terms: Seq<Seq<char>>) -> Seq<(Seq<char>, Seq<char>)>
    decreases terms.len(),
{
    if terms.len() == 0 {
        Seq::empty()
    } else {
        long_term_requests(terms.drop_last()) + (if terms.last().len() >= 4 {
            seq![(terms.last(), ""@)]
        } else {
            Seq::empty()
        })
    }
}

fn long_term_request_vec(terms: &Vec<Vec<char>>) -> (r: AttemptBuf)
    ensures
        pairs_of(r@) == long_term_requests(seqs_of(terms@)),
{
    let mut r: AttemptBuf = Vec::new();
    let mut i: usize = 0;
    while i < terms.len()
        invariant
            i <= terms.len(),
            pairs_of(r@) == long_term_requests(seqs_of(terms@).subrange(0, i as int)),
        decreases terms.len() - i,
    {
        assert(seqs_of(terms@).subrange(0, i + 1).drop_last() =~= seqs_of(terms@).subrange(
            0,
            i as int,
        ));
        let ghost before = pairs_of(r@);
        if terms[i].len() >= 4 {
            let t = sub_vec(&terms[i], 0, terms[i].len());
            assert(t@ =~= terms@[i as int]@);
            r.push((t, Vec::new()));
            assert(pairs_of(r@) =~= before.push((t@, Seq::<char>::empty())));
            assert(""@ == Seq::<char>::empty()) by {
                reveal_strlit("");
            }
            assert(pairs_of(r@) =~= before + seq![(terms@[i as int]@, ""@)]);
        } else {
            assert(before =~= before + Seq::<(Seq<char>, Seq<char>)>::empty());
        }
        i = i + 1;
    }
    assert(seqs_of(terms@).subrange(0, terms.len() as int) =~= seqs_of(terms@));
    r
}

/// The attempts that candidate discovery derives from the intent's terms.
pub open spec fn term_requests(terms: Seq<Seq<char>>) -> Seq<(Seq<char>, Seq<char>)> {
    seq![(join(terms, " "@), ""@)] + exact_anchor_requests(terms) + route_hint_requests(terms)
        + window_requests(terms, 4) + window_requests(terms, 3) + window_requests(terms, 2)
        + long_term_requests(terms)
}

/// The attempts that candidate discovery asks for, in order, before duplicates are dropped.
pub open spec fn candidate_discovery_requests(intent: Seq<char>) -> Seq<(Seq<char>, Seq<char>)> {
    let trimmed = trim(intent);
    let terms = search_terms_spec(trimmed);
    seq![(trimmed, ""@)] + if terms.len() == 0 {
        Seq::empty()
    } else {
        term_requests(terms)
    }
}

/// At most the first 32 distinct candidate-discovery attempts.
pub open spec fn candidate_discovery_queries_spec(intent: Seq<char>) -> Seq<(Seq<char>, Seq<char>)> {
    let all = push_all(Seq::empty(), candidate_discovery_requests(intent));
    if all.len() > 32 {
        all.subrange(0, 32)
    } else {
        all
    }
}

fn push_term_requests(attempts: &mut AttemptBuf, terms: &Vec<Vec<char>>)
    ensures
        pairs_of(final(attempts)@) == push_all(
            pairs_of(old(attempts)@),
            term_requests(seqs_of(terms@)),
        ),
{
    let ghost start = pairs_of(attempts@);
    let ghost t = seqs_of(terms@);
    let mut joined: AttemptBuf = Vec::new();
    joined.push((join_vecs(terms, &lit(" ")), Vec::new()));
    let ghost s0 = pairs_of(joined@);
    assert(""@ == Seq::<char>::empty()) by {
        reveal_strlit("");
    }
    assert(s0 =~= seq![(join(t, " "@), ""@)]);
    let ex = exact_anchor_request_vec(terms);
    let rh = route_hint_request_vec(terms);
    let w4 = window_request_vec(terms, 4);
    let w3 = window_request_vec(terms, 3);
    let w2 = window_request_vec(terms, 2);
    let lt = long_term_request_vec(terms);
    push_requests(attempts, &joined);
    push_requests(attempts, &ex);
    push_requests(attempts, &rh);
    push_requests(attempts, &w4);
    push_requests(attempts, &w3);
    push_requests(attempts, &w2);
    push_requests(attempts, &lt);
    proof {
        let a1 = s0;
        let a2 = a1 + pairs_of(ex@);
        let a3 = a2 + pairs_of(rh@);
        let a4 = a3 + pairs_of(w4@);
        let a5 = a4 + pairs_of(w3@);
        let a6 = a5 + pairs_of(w2@);
        lemma_push_all_append(start, a1, pairs_of(ex@));
        lemma_push_all_append(start, a2, pairs_of(rh@));
        lemma_push_all_append(start, a3, pairs_of(w4@));
        lemma_push_all_append(start, a4, pairs_of(w3@));
        lemma_push_all_append(start, a5, pairs_of(w2@));
        lemma_push_all_append(start, a6, pairs_of(lt@));
        assert(term_requests(t) =~= a6 + pairs_of(lt@));
    }
}

fn attempts_of(buf: &AttemptBuf) -> (r: Vec<RepoSearchAttempt>)
    ensures
        attempts_view(r@) == pairs_of(buf@),
{
    let mut r: Vec<RepoSearchAttempt> = Vec::new();
    let mut i: usize = 0;
    while i < buf.len()
        invariant
            i <= buf.len(),
            attempts_view(r@) == pairs_of(buf@).subrange(0, i as int),
        decreases buf.len() - i,
    {
        let a = RepoSearchAttempt { query: string_of(&buf[i].0), path_prefix: string_of(&buf[i].1) };
        let ghost before = attempts_view(r@);
        r.push(a);
        assert(attempts_view(r@) =~= before.push(a@));
        i = i + 1;
        assert(attempts_view(r@) =~= pairs_of(buf@).subrange(0, i as int));
    }
    assert(pairs_of(buf@).subrange(0, buf.len() as int) =~= pairs_of(buf@));
    r
}

pub fn candidate_discovery_queries(intent: &str) -> (r: Vec<RepoSearchAttempt>)
    ensures
        attempts_view(r@) == candidate_discovery_queries_spec(intent@),
{
    let mut attempts: AttemptBuf = Vec::new();
    let trimmed = trim_vec(&chars_of(intent));
    let empty: Vec<char> = Vec::new();
    assert(""@ == Seq::<char>::empty()) by {
        reveal_strlit("");
    }
    let ghost first = seq![(trimmed@, ""@)];
    assert(pairs_of(attempts@) =~= Seq::<(Seq<char>, Seq<char>)>::empty());
    push_repo_search_attempt(&mut attempts, &trimmed, &empty);
    assert(first.drop_last() =~= Seq::<(Seq<char>, Seq<char>)>::empty());
    assert(push_all(Seq::empty(), first.drop_last()) == Seq::<(Seq<char>, Seq<char>)>::empty());
    assert(pairs_of(attempts@) == push_all(Seq::empty(), first));
    let terms = search_terms_vec(&trimmed);
    if terms.len() > 0 {
        push_term_requests(&mut attempts, &terms);
        proof {
            lemma_push_all_append(Seq::empty(), first, term_requests(seqs_of(terms@)));
        }
    } else {
        assert(candidate_discovery_requests(intent@) =~= first);
    }
    let ghost all = pairs_of(attempts@);
    attempts.truncate(32);
    assert(pairs_of(attempts@) =~= (if all.len() > 32 {
        all.subrange(0, 32)
    } else {
        all
    }));
    attempts_of(&attempts)
}


/// Adds the trimmed query unless it is blank or already listed.
pub open spec fn push_unique_query_spec(queries: Seq<Seq<char>>, query: Seq<char>) -> Seq<Seq<char>> {
    let q = trim(query);
    if q.len() == 0 || queries.contains(q) {
        queries
    } else {
        queries.push(q)
    }
}

pub fn push_unique_query(queries: &mut Vec<Vec<char>>, query: &[char])
    ensures
        seqs_of(final(queries)@) == push_unique_query_spec(seqs_of(old(queries)@), query@),
{
    let q = trim_vec(query);
    if q.len() == 0 {
        return;
    }
    push_unique_vec(queries, q);
}

/// The terms that are not plain numbers.
pub open spec fn semantic_terms(terms: Seq<Seq<char>>) -> Seq<Seq<char>>
    decreases terms.len(),
{
    if terms.len() == 0 {
        Seq::empty()
    } else {
        semantic_terms(terms.drop_last()) + (if all_digits(terms.last()) {
            Seq::empty()
        } else {
            seq![terms.last()]
        })
    }
}

fn semantic_terms_vec(terms: &Vec<Vec<char>>) -> (r: Vec<Vec<char>>)
    ensures
        seqs_of(r@) == semantic_terms(seqs_of(terms@)),
{
    let mut r: Vec<Vec<char>> = Vec::new();
    let mut i: usize = 0;
    while i < terms.len()
        invariant
            i <= terms.len(),
            seqs_of(r@) == semantic_terms(seqs_of(terms@).subrange(0, i as int)),
        decreases terms.len() - i,
    {
        assert(seqs_of(terms@).subrange(0, i + 1).drop_last() =~= seqs_of(terms@).subrange(
            0,
            i as int,
        ));
        let ghost before = seqs_of(r@);
        if !all_digits_vec(&terms[i]) {
            let t = sub_vec(&terms[i], 0, terms[i].len());
            assert(t@ =~= terms@[i as int]@);
            r.push(t);
            assert(seqs_of(r@) =~= before + seq![t@]);
        } else {
            assert(before =~= before + Seq::<Seq<char>>::empty());
        }
        i = i + 1;
    }
    assert(seqs_of(terms@).subrange(0, terms.len() as int) =~= seqs_of(terms@));
    r
}

/// The stem that `source_path_queries` searches for: the last path segment
/// without its extension, or the whole trimmed path when that segment has no `.`.
pub open spec fn source_file_stem(source_path: Seq<char>) -> Seq<char> {
    let t = trim(source_path);
    let tm = trim_matches(t, '/');
    let last = tm.subrange(rposition(tm, '/') + 1, tm.len() as int);
    let dot = rposition(last, '.');
    if dot >= 0 {
        last.subrange(0, dot)
    } else {
        t
    }
}

/// File-stem queries for a source path: all stem terms, the non-numeric ones,
/// and those run together when that gives at least four characters.
pub open spec fn source_path_queries_spec(source_path: Seq<char>) -> Seq<Seq<char>> {
    let terms = search_terms_spec(source_file_stem(source_path));
    if terms.len() == 0 {
        seq![trim(source_path)]
    } else {
        let semantic = semantic_terms(terms);
        let q1 = push_unique_query_spec(Seq::empty(), join(terms, " "@));
        if semantic.len() == 0 {
            q1
        } else {
            let q2 = push_unique_query_spec(q1, join(semantic, " "@));
            let compact = join(semantic, ""@);
            if compact.len() >= 4 {
                push_unique_query_spec(q2, compact)
            } else {
                q2
            }
        }
    }
}

fn source_file_stem_vec(source: &[char]) -> (r: Vec<char>)
    ensures
        r@ == source_file_stem(source@),
{
    let t = trim_vec(source);
    let tm = trim_matches_vec(&t, '/');
    assert(tm@.subrange(0, tm.len() as int) =~= tm@);
    let start = match rposition_exec(&tm, tm.len(), '/') {
        Some(k) => k + 1,
        None => 0,
    };
    let last = sub_vec(&tm, start, tm.len());
    assert(last@.subrange(0, last.len() as int) =~= last@);
    match rposition_exec(&last, last.len(), '.') {
        Some(dot) => sub_vec(&last, 0, dot),
        None => t,
    }
}

pub fn source_path_queries_vec(source: &[char]) -> (r: Vec<Vec<char>>)
    ensures
        seqs_of(r@) == source_path_queries_spec(source@),
{
    let stem = source_file_stem_vec(source);
    let terms = search_terms_vec(&stem);
    if terms.len() == 0 {
        let mut r: Vec<Vec<char>> = Vec::new();
        r.push(trim_vec(source));
        assert(seqs_of(r@) =~= seq![trim(source@)]);
        return r;
    }
    let semantic = semantic_terms_vec(&terms);
    let mut queries: Vec<Vec<char>> = Vec::new();
    assert(seqs_of(queries@) =~= Seq::<Seq<char>>::empty());
    push_unique_query(&mut queries, &join_vecs(&terms, &lit(" ")));
    if semantic.len() > 0 {
        push_unique_query(&mut queries, &join_vecs(&semantic, &lit(" ")));
        let compact = join_vecs(&semantic, &lit(""));
        if compact.len() >= 4 {
            push_unique_query(&mut queries, &compact);
        }
    }
    queries
}

pub fn source_path_queries(source_path: &str) -> (r: Vec<String>)
    ensures
        r.deep_view() == source_path_queries_spec(source_path@),
{
    strings_of(&source_path_queries_vec(&chars_of(source_path)))
}

/// The first file-stem query of a source path.
pub open spec fn source_path_query_spec(source_path: Seq<char>) -> Seq<char> {
    let qs = source_path_queries_spec(source_path);
    if qs.len() > 0 {
        qs[0]
    } else {
        trim(source_path)
    }
}

pub fn source_path_query(source_path: &str) -> (r: String)
    ensures
        r@ == source_path_query_spec(source_path@),
{
    let v = chars_of(source_path);
    let qs = source_path_queries_vec(&v);
    if qs.len() > 0 {
        string_of(&qs[0])
    } else {
        string_of(&trim_vec(&v))
    }
}

/// Repo-search attempts for one planned route: first scoped to the route's
/// source path, then with no prefix, then the path itself as the query.
pub open spec fn repo_search_attempts_for_route_spec(
    repo_id: Seq<char>,
    source_path: Seq<char>,
    heading_anchor: Option<Seq<char>>,
) -> Seq<(Seq<char>, Seq<char>)> {
    let rel = repo_relative_source_path_spec(repo_id, source_path);
    let anchor_query = repo_search_query_spec(rel, heading_anchor);
    let file_queries = source_path_queries_spec(rel);
    let strict = push_all(
        Seq::empty(),
        seq![(anchor_query, rel)] + file_queries.map_values(|q: Seq<char>| (q, rel)),
    );
    let relaxed = push_all(
        Seq::empty(),
        seq![(anchor_query, ""@)] + file_queries.map_values(|q: Seq<char>| (q, ""@)) + seq![
            (rel, ""@),
        ] + (if rel != trim_slashes(source_path) {
            seq![(source_path, ""@)]
        } else {
            Seq::empty()
        }),
    );
    strict + relaxed
}

/// The first `m` attempts search under `prefix`, the rest under no prefix.
pub open spec fn scoped_until(attempts: Seq<(Seq<char>, Seq<char>)>, prefix: Seq<char>, m: int) -> bool {
    &&& 0 <= m <= attempts.len()
    &&& forall|k: int| 0 <= k < m ==> (#[trigger] attempts[k]).1 == prefix
    &&& forall|k: int| m <= k < attempts.len() ==> (#[trigger] attempts[k]).1 == ""@
    &&& clean_attempts(attempts.subrange(0, m))
    &&& clean_attempts(attempts.subrange(m, attempts.len() as int))
}

/// A planned route's repo-search attempts first search under the route's
/// repo-relative source path and then under no prefix, each group free of
/// repeats and blank queries. The first attempt is the route's anchor query
/// under that path when the query is not blank, and the unscoped group
/// searches for the path itself when it is not blank.
pub proof fn lemma_route_attempts_scoped_then_unscoped(
    repo_id: Seq<char>,
    source_path: Seq<char>,
    heading_anchor: Option<Seq<char>>,
)
    ensures
        ({
            let attempts = repo_search_attempts_for_route_spec(repo_id, source_path, heading_anchor);
            let rel = repo_relative_source_path_spec(repo_id, source_path);
            let query = repo_search_query_spec(rel, heading_anchor);
            &&& exists|m: int| #[trigger] scoped_until(attempts, trim(rel), m)
            &&& trim(query).len() > 0 ==> attempts.len() > 0 && attempts[0] == (trim(query), trim(rel))
            &&& trim(rel).len() > 0 ==> attempts.contains((trim(rel), ""@))
        }),
{
    let rel = repo_relative_source_path_spec(repo_id, source_path);
    let anchor_query = repo_search_query_spec(rel, heading_anchor);
    let file_queries = source_path_queries_spec(rel);
    let empty = Seq::<(Seq<char>, Seq<char>)>::empty();
    let sreqs = seq![(anchor_query, rel)] + file_queries.map_values(|q: Seq<char>| (q, rel));
    let rreqs = seq![(anchor_query, ""@)] + file_queries.map_values(|q: Seq<char>| (q, ""@)) + seq![(rel, ""@)] + (
    if rel != trim_slashes(source_path) {
        seq![(source_path, ""@)]
    } else {
        Seq::empty()
    });
    let strict = push_all(empty, sreqs);
    let relaxed = push_all(empty, rreqs);
    let attempts = repo_search_attempts_for_route_spec(repo_id, source_path, heading_anchor);
    assert(attempts == strict + relaxed);
    lemma_push_all_keeps_requests(empty, sreqs);
    lemma_push_all_keeps_requests(empty, rreqs);
    reveal_strlit("");
    assert(trim(""@) =~= ""@);
    let m = strict.len() as int;
    assert forall|k: int| 0 <= k < m implies (#[trigger] attempts[k]).1 == trim(rel) by {
        assert(attempts[k] == strict[k]);
        assert(strict.contains(strict[k]));
        let j = choose|j: int| 0 <= j < sreqs.len() && trim(sreqs[j].0).len() > 0 && strict[k] == trimmed_request(
            #[trigger] sreqs[j],
        );
        assert(sreqs[j].1 == rel);
    }
    assert forall|k: int| m <= k < attempts.len() implies (#[trigger] attempts[k]).1 == ""@ by {
        assert(attempts[k] == relaxed[k - m]);
        assert(relaxed.contains(relaxed[k - m]));
        let j = choose|j: int| 0 <= j < rreqs.len() && trim(rreqs[j].0).len() > 0 && relaxed[k - m] == trimmed_request(
            #[trigger] rreqs[j],
        );
        assert(rreqs[j].1 == ""@);
    }
    assert(attempts.subrange(0, m) =~= strict);
    assert(attempts.subrange(m, attempts.len() as int) =~= relaxed);
    assert(scoped_until(attempts, trim(rel), m));
    assert(trim(anchor_query).len() > 0 ==> attempts.len() > 0 && attempts[0] == (trim(anchor_query), trim(rel))) by {
    if trim(anchor_query).len() > 0 {
        assert(sreqs[0] == (anchor_query, rel));
        let head = seq![sreqs[0]];
        let tail = sreqs.subrange(1, sreqs.len() as int);
        assert(sreqs =~= head + tail);
        lemma_push_all_append(empty, head, tail);
        let first = push_all(empty, head);
        assert(head.drop_last() =~= empty);
        assert(push_all(empty, head.drop_last()) == empty);
        assert(head.last() == (anchor_query, rel));
        assert(first == push_attempt(empty, anchor_query, rel));
        assert(!empty.contains((trim(anchor_query), trim(rel))));
        assert(first =~= seq![(trim(anchor_query), trim(rel))]);
        lemma_push_all_keeps_requests(first, tail);
        assert(strict == push_all(first, tail));
        assert(strict.len() >= 1);
        assert(strict.subrange(0, 1) == first);
        assert(strict[0] == strict.subrange(0, 1)[0]);
        assert(attempts[0] == strict[0]);
    }
    }
    assert(trim(rel).len() > 0 ==> attempts.contains((trim(rel), ""@))) by {
    if trim(rel).len() > 0 {
        let k: int = 1 + file_queries.len() as int;
        assert(rreqs[k] == (rel, ""@));
        assert(relaxed.contains(trimmed_request(rreqs[k])));
        let j = choose|j: int| 0 <= j < relaxed.len() && relaxed[j] == trimmed_request(rreqs[k]);
        assert(attempts[m + j] == relaxed[j]);
        assert(trimmed_request(rreqs[k]) == (trim(rel), ""@));
        assert(attempts[m + j] == (trim(rel), ""@));
        assert(0 <= m + j < attempts.len());
        assert(attempts.contains((trim(rel), ""@)));
    }
    }
}

fn pair_requests(queries: &Vec<Vec<char>>, prefix: &[char]) -> (r: AttemptBuf)
    ensures
        pairs_of(r@) == seqs_of(queries@).map_values(|q: Seq<char>| (q, prefix@)),
{
    let mut r: AttemptBuf = Vec::new();
    let mut i: usize = 0;
    while i < queries.len()
        invariant
            i <= queries.len(),
            pairs_of(r@) == seqs_of(queries@).subrange(0, i as int).map_values(
                |q: Seq<char>| (q, prefix@),
            ),
        decreases queries.len() - i,
    {
        let q = sub_vec(&queries[i], 0, queries[i].len());
        let p = sub_vec(prefix, 0, prefix.len());
        assert(q@ =~= queries@[i as int]@);
        assert(p@ =~= prefix@);
        let ghost before = pairs_of(r@);
        r.push((q, p));
        assert(pairs_of(r@) =~= before.push((q@, p@)));
        i = i + 1;
        assert(pairs_of(r@) =~= seqs_of(queries@).subrange(0, i as int).map_values(
            |q: Seq<char>| (q, prefix@),
        ));
    }
    assert(seqs_of(queries@).subrange(0, queries.len() as int) =~= seqs_of(queries@));
    r
}

fn append_bufs(a: &mut AttemptBuf, b: AttemptBuf)
    ensures
        pairs_of(final(a)@) == pairs_of(old(a)@) + pairs_of(b@),
{
    let mut b = b;
    let ghost bv = pairs_of(b@);
    let ghost av = pairs_of(a@);
    a.append(&mut b);
    assert(pairs_of(a@) =~= av + bv);
}

pub fn repo_search_attempts_for_route(
    repo_id: &str,
    source_path: &str,
    heading_anchor: Option<&str>,
) -> (r: Vec<RepoSearchAttempt>)
    ensures
        attempts_view(r@) == repo_search_attempts_for_route_spec(
            repo_id@,
            source_path@,
            match heading_anchor {
                Some(a) => Some(a@),
                None => None,
            },
        ),
{
    let source = chars_of(source_path);
    let rel = repo_relative_source_path_vec(&chars_of(repo_id), &source);
    let anchor_query = match heading_anchor {
        None => repo_search_query_vec(&rel, None),
        Some(a) => {
            let av = chars_of(a);
            repo_search_query_vec(&rel, Some(av.as_slice()))
        },
    };
    let file_queries = source_path_queries_vec(&rel);
    let empty: Vec<char> = Vec::new();
    assert(""@ == Seq::<char>::empty()) by {
        reveal_strlit("");
    }
    let mut strict_reqs: AttemptBuf = Vec::new();
    strict_reqs.push((copy_vec(&anchor_query), copy_vec(&rel)));
    let ghost s_head = pairs_of(strict_reqs@);
    assert(s_head =~= seq![(anchor_query@, rel@)]);
    append_bufs(&mut strict_reqs, pair_requests(&file_queries, &rel));
    let mut relaxed_reqs: AttemptBuf = Vec::new();
    relaxed_reqs.push((copy_vec(&anchor_query), Vec::new()));
    let ghost r_head = pairs_of(relaxed_reqs@);
    assert(r_head =~= seq![(anchor_query@, ""@)]);
    append_bufs(&mut relaxed_reqs, pair_requests(&file_queries, &empty));
    let ghost r_mid = pairs_of(relaxed_reqs@);
    relaxed_reqs.push((copy_vec(&rel), Vec::new()));
    let ghost r_mid2 = pairs_of(relaxed_reqs@);
    assert(r_mid2 =~= r_mid + seq![(rel@, ""@)]);
    let normalized_source = trim_slashes_vec(&source);
    if !vec_eq(&rel, &normalized_source) {
        relaxed_reqs.push((copy_vec(&source), Vec::new()));
        assert(pairs_of(relaxed_reqs@) =~= r_mid2 + seq![(source@, ""@)]);
    } else {
        assert(pairs_of(relaxed_reqs@) =~= r_mid2 + Seq::<(Seq<char>, Seq<char>)>::empty());
    }
    let mut attempts: AttemptBuf = Vec::new();
    assert(pairs_of(attempts@) =~= Seq::<(Seq<char>, Seq<char>)>::empty());
    push_requests(&mut attempts, &strict_reqs);
    let mut relaxed: AttemptBuf = Vec::new();
    assert(pairs_of(relaxed@) =~= Seq::<(Seq<char>, Seq<char>)>::empty());
    push_requests(&mut relaxed, &relaxed_reqs);
    append_bufs(&mut attempts, relaxed);
    attempts_of(&attempts)
}

} // verus!
