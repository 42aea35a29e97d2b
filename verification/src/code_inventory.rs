//! Code-intelligence candidates from the git-tracked files under the
//! configured source dirs: which files count, the candidate each yields,
//! their order, and the audit counts.
use vstd::prelude::*;
use crate::markdown_candidates::{markdown_anchor, markdown_anchor_spec};
use crate::ordered::{lex_less, lex_lt, strictly_sorted};
use crate::text::{
    chars_of, concat2, contains, contains_vec, ends_with, ends_with_vec, lines_of, lines_vec, lit,
    push_string, seqs_of, starts_with, starts_with_vec, string_of, trim, trim_vec, vec_eq,
};

verus! {

/// The Wendao Rust crate surface.
pub const WENDAO_RUST_SURFACE: &'static str = "packages/rust/crates/xiuxian-wendao";

/// The link-graph sources inside the Wendao Rust crate.
pub const LINK_GRAPH_RUST_SURFACE: &'static str = "packages/rust/crates/xiuxian-wendao/src/link_graph";

/// The Python retrieval benchmark package.
pub const BENCHMARK_PYTHON_SURFACE: &'static str = "packages/python/wendao-knowledge-retrieval-benchmark";

/// Paths that an inventory never shows: caches, data and run dirs, build
/// outputs and installed node modules.
pub open spec fn inventory_visible(p: Seq<char>) -> bool {
    &&& !starts_with(p, ".cache/"@)
    &&& !starts_with(p, ".data/"@)
    &&& !starts_with(p, ".run/"@)
    &&& !contains(p, "/target/"@)
    &&& !contains(p, "/node_modules/"@)
}

/// Whether a path that git tracks can appear in the inventory.
pub fn is_inventory_visible_path(path: &str) -> (b: bool)
    ensures
        b == inventory_visible(path@),
{
    let p = chars_of(path);
    !starts_with_vec(&p, &lit(".cache/")) && !starts_with_vec(&p, &lit(".data/"))
        && !starts_with_vec(&p, &lit(".run/")) && !contains_vec(&p, &lit("/target/"))
        && !contains_vec(&p, &lit("/node_modules/"))
}

/// The root without trailing `/`.
pub open spec fn trim_end_slashes(s: Seq<char>) -> Seq<char>
    decreases s.len(),
{
    if s.len() > 0 && s.last() == '/' {
        trim_end_slashes(s.drop_last())
    } else {
        s
    }
}

fn trim_end_slashes_vec(v: &[char]) -> (r: Vec<char>)
    ensures
        r@ == trim_end_slashes(v@),
{
    let mut e: usize = v.len();
    assert(v@.take(e as int) =~= v@);
    while e > 0 && v[e - 1] == '/'
        invariant
            e <= v.len(),
            trim_end_slashes(v@) == trim_end_slashes(v@.take(e as int)),
        decreases e,
    {
        assert(v@.take(e as int).drop_last() =~= v@.take(e - 1));
        e = e - 1;
    }
    let mut r: Vec<char> = Vec::new();
    let mut i: usize = 0;
    while i < e
        invariant
            i <= e <= v.len(),
            r@ == v@.take(i as int),
        decreases e - i,
    {
        r.push(v[i]);
        i = i + 1;
        assert(r@ =~= v@.take(i as int));
    }
    r
}

/// Whether a path is the root itself or lies below it.
pub open spec fn path_under(p: Seq<char>, root: Seq<char>) -> bool {
    p == root || starts_with(p, trim_end_slashes(root) + seq!['/'])
}

/// Whether a path is the root itself or lies below it.
pub fn path_is_under(path: &str, root: &str) -> (b: bool)
    ensures
        b == path_under(path@, root@),
{
    let p = chars_of(path);
    let r = chars_of(root);
    if vec_eq(&p, &r) {
        return true;
    }
    let slash: Vec<char> = vec!['/'];
    assert(slash@ =~= seq!['/']);
    starts_with_vec(&p, &concat2(&trim_end_slashes_vec(&r), &slash))
}

/// The paths that `git ls-files` printed: each line trimmed, empty lines
/// and paths the inventory never shows left out.
pub open spec fn tracked_paths_of(stdout: Seq<char>) -> Seq<Seq<char>> {
    lines_of(stdout).map_values(|l: Seq<char>| trim(l)).filter(
        |p: Seq<char>| p.len() > 0 && inventory_visible(p),
    )
}

/// The paths that `git ls-files` printed, as the inventory reads them.
pub fn tracked_paths_from_ls_files(stdout: &str) -> (r: Vec<String>)
    ensures
        r.deep_view() == tracked_paths_of(stdout@),
{
    let lines = lines_vec(&chars_of(stdout));
    let ghost trimmed = seqs_of(lines@).map_values(|l: Seq<char>| trim(l));
    let mut out: Vec<String> = Vec::new();
    let mut i: usize = 0;
    while i < lines.len()
        invariant
            i <= lines.len(),
            trimmed == seqs_of(lines@).map_values(|l: Seq<char>| trim(l)),
            out.deep_view() == trimmed.take(i as int).filter(
                |p: Seq<char>| p.len() > 0 && inventory_visible(p),
            ),
        decreases lines.len() - i,
    {
        let t = trim_vec(&lines[i]);
        let ghost prev = trimmed.take(i as int);
        assert(trimmed.take(i + 1) =~= prev.push(t@));
        proof {
            prev.lemma_filter_push(t@, |p: Seq<char>| p.len() > 0 && inventory_visible(p));
        }
        let s = string_of(&t);
        if t.len() > 0 && is_inventory_visible_path(s.as_str()) {
            push_string(&mut out, s);
        }
        i = i + 1;
    }
    assert(trimmed.take(lines.len() as int) =~= trimmed);
    out
}

/// One code-intelligence candidate. Its scores are in thousandths.
#[derive(Clone, Debug)]
pub struct CodeInventoryCandidate {
    pub relative_path: String,
    pub heading_anchor: String,
    pub title: String,
    pub line_start: usize,
    pub line_end: usize,
    pub context_cost: usize,
    pub evidence_coverage_permille: u32,
    pub graph_score_permille: u32,
    pub authority_score_permille: u32,
    pub structural_score_permille: u32,
    pub uncertainty_permille: u32,
    pub blocked: bool,
    pub edge_kinds: Vec<String>,
}

/// An inventory entry: a path, its scenario and its language.
pub type InventoryEntry = (Seq<char>, Seq<char>, Seq<char>);

/// The heading anchor of an entry: its scenario, then the path's anchor.
pub open spec fn entry_anchor(e: InventoryEntry) -> Seq<char> {
    e.1 + "-"@ + markdown_anchor_spec(e.0)
}

/// The candidate that an entry yields.
pub open spec fn candidate_is(c: CodeInventoryCandidate, e: InventoryEntry) -> bool {
    &&& c.relative_path@ == e.0
    &&& c.heading_anchor@ == entry_anchor(e)
    &&& c.title@ == "Code intelligence "@ + e.1 + ": "@ + e.0
    &&& c.line_start == 1
    &&& c.line_end == 1
    &&& c.context_cost == 8
    &&& c.evidence_coverage_permille == 840
    &&& c.graph_score_permille == (if e.1 == "link-graph-source-focus"@ {
        900u32
    } else {
        820u32
    })
    &&& c.authority_score_permille == 800
    &&& c.structural_score_permille == 860
    &&& c.uncertainty_permille == 120
    &&& !c.blocked
    &&& c.edge_kinds.deep_view() == seq![
        "code-intelligence"@,
        "git-tracked-inventory"@,
        "source-config"@,
        e.1,
        "language:"@ + e.2,
    ]
}

/// The code-intelligence candidate of a path, for a scenario and a language.
pub fn code_inventory_candidate(relative_path: &str, scenario_id: &str, language: &str) -> (c:
    CodeInventoryCandidate)
    ensures
        candidate_is(c, (relative_path@, scenario_id@, language@)),
{
    let path = chars_of(relative_path);
    let scenario = chars_of(scenario_id);
    let anchor = concat2(&concat2(&scenario, &lit("-")), &chars_of(markdown_anchor(relative_path).as_str()));
    let title = concat2(&concat2(&concat2(&lit("Code intelligence "), &scenario), &lit(": ")), &path);
    let mut edge_kinds: Vec<String> = Vec::new();
    push_string(&mut edge_kinds, "code-intelligence".to_owned());
    push_string(&mut edge_kinds, "git-tracked-inventory".to_owned());
    push_string(&mut edge_kinds, "source-config".to_owned());
    push_string(&mut edge_kinds, string_of(&scenario));
    push_string(&mut edge_kinds, string_of(&concat2(&lit("language:"), &chars_of(language))));
    assert(edge_kinds.deep_view() =~= seq![
        "code-intelligence"@,
        "git-tracked-inventory"@,
        "source-config"@,
        scenario_id@,
        "language:"@ + language@,
    ]);
    let graph: u32 = if vec_eq(&scenario, &lit("link-graph-source-focus")) {
        900
    } else {
        820
    };
    CodeInventoryCandidate {
        relative_path: string_of(&path),
        heading_anchor: string_of(&anchor),
        title: string_of(&title),
        line_start: 1,
        line_end: 1,
        context_cost: 8,
        evidence_coverage_permille: 840,
        graph_score_permille: graph,
        authority_score_permille: 800,
        structural_score_permille: 860,
        uncertainty_permille: 120,
        blocked: false,
        edge_kinds,
    }
}

/// The entries of one surface: its files paths with the extension, in
/// files order.
pub open spec fn group(
    files: Seq<Seq<char>>,
    root: Seq<char>,
    ext: Seq<char>,
    scenario: Seq<char>,
    language: Seq<char>,
) -> Seq<InventoryEntry> {
    files.filter(|p: Seq<char>| path_under(p, root) && ends_with(p, ext)).map_values(
        |p: Seq<char>| (p, scenario, language),
    )
}

/// The inventory entries before ordering: Rust sources and TOML configs of
/// the Wendao crate, Rust sources of its link graph, then Python sources and
/// TOML configs of the benchmark, each where its dir is configured.
pub open spec fn inventory_entries(dirs: Seq<Seq<char>>, files: Seq<Seq<char>>) -> Seq<
    InventoryEntry,
> {
    (if dirs.contains(WENDAO_RUST_SURFACE@) {
        group(files, WENDAO_RUST_SURFACE@, ".rs"@, "rust-control-plane-source"@, "rust"@) + group(
            files,
            WENDAO_RUST_SURFACE@,
            ".toml"@,
            "toml-config-boundary"@,
            "toml"@,
        )
    } else {
        Seq::empty()
    }) + (if dirs.contains(LINK_GRAPH_RUST_SURFACE@) {
        group(files, LINK_GRAPH_RUST_SURFACE@, ".rs"@, "link-graph-source-focus"@, "rust"@)
    } else {
        Seq::empty()
    }) + (if dirs.contains(BENCHMARK_PYTHON_SURFACE@) {
        group(
            files,
            BENCHMARK_PYTHON_SURFACE@,
            ".py"@,
            "benchmark-python-adapter"@,
            "python"@,
        ) + group(files, BENCHMARK_PYTHON_SURFACE@, ".toml"@, "toml-config-boundary"@, "toml"@)
    } else {
        Seq::empty()
    })
}

fn contains_str(list: &Vec<String>, s: &str) -> (b: bool)
    ensures
        b == list.deep_view().contains(s@),
{
    let t = chars_of(s);
    let mut i: usize = 0;
    while i < list.len()
        invariant
            i <= list.len(),
            t@ == s@,
            forall|j: int| 0 <= j < i ==> list.deep_view()[j] != s@,
        decreases list.len() - i,
    {
        if vec_eq(&chars_of(list[i].as_str()), &t) {
            assert(list.deep_view()[i as int] == s@);
            return true;
        }
        i = i + 1;
    }
    false
}

fn push_group(
    out: &mut Vec<CodeInventoryCandidate>,
    entries: Ghost<Seq<InventoryEntry>>,
    files: &Vec<String>,
    root: &str,
    ext: &str,
    scenario: &str,
    language: &str,
) -> (r: Ghost<Seq<InventoryEntry>>)
    requires
        old(out).len() == entries@.len(),
        forall|k: int| 0 <= k < old(out).len() ==> candidate_is(#[trigger] old(out)@[k], entries@[k]),
    ensures
        r@ == entries@ + group(files.deep_view(), root@, ext@, scenario@, language@),
        final(out).len() == r@.len(),
        forall|k: int| 0 <= k < final(out).len() ==> candidate_is(#[trigger] final(out)@[k], r@[k]),
{
    let ghost pred = |p: Seq<char>| path_under(p, root@) && ends_with(p, ext@);
    let ghost mk = |p: Seq<char>| (p, scenario@, language@);
    let ghost mut acc = entries@;
    let x = chars_of(ext);
    let mut i: usize = 0;
    while i < files.len()
        invariant
            i <= files.len(),
            x@ == ext@,
            pred == (|p: Seq<char>| path_under(p, root@) && ends_with(p, ext@)),
            mk == (|p: Seq<char>| (p, scenario@, language@)),
            acc == entries@ + files.deep_view().take(i as int).filter(pred).map_values(mk),
            out.len() == acc.len(),
            forall|k: int| 0 <= k < out.len() ==> candidate_is(#[trigger] out@[k], acc[k]),
        decreases files.len() - i,
    {
        let ghost prev = files.deep_view().take(i as int);
        let ghost p = files@[i as int]@;
        assert(files.deep_view().take(i + 1) =~= prev.push(p));
        proof {
            prev.lemma_filter_push(p, pred);
        }
        let path = files[i].as_str();
        if path_is_under(path, root) && ends_with_vec(&chars_of(path), &x) {
            let c = code_inventory_candidate(path, scenario, language);
            let ghost before = out@;
            out.push(c);
            proof {
                assert(prev.push(p).filter(pred) == prev.filter(pred).push(p));
                assert(prev.push(p).filter(pred).map_values(mk) =~= prev.filter(pred).map_values(
                    mk,
                ).push(mk(p)));
                acc = acc.push(mk(p));
                assert forall|k: int| 0 <= k < out.len() implies candidate_is(#[trigger] out@[k], acc[k]) by {
                    if k < before.len() {
                        assert(out@[k] == before[k]);
                    }
                }
            }
        } else {
            proof {
                assert(prev.push(p).filter(pred) == prev.filter(pred));
            }
        }
        i = i + 1;
    }
    assert(files.deep_view().take(files.len() as int) =~= files.deep_view());
    Ghost(acc)
}

/// Inventory order of two candidates: by heading anchor, then by path, then
/// as they came (the sort is stable).
pub open spec fn inventory_before(s: Seq<CodeInventoryCandidate>, i: int, j: int) -> bool {
    if s[i].heading_anchor@ != s[j].heading_anchor@ {
        lex_lt(s[i].heading_anchor@, s[j].heading_anchor@)
    } else if s[i].relative_path@ != s[j].relative_path@ {
        lex_lt(s[i].relative_path@, s[j].relative_path@)
    } else {
        i < j
    }
}

proof fn lemma_lex_strict(a: Seq<char>, b: Seq<char>, c: Seq<char>)
    ensures
        a != b ==> lex_lt(a, b) || lex_lt(b, a),
        !(lex_lt(a, b) && lex_lt(b, a)),
        lex_lt(a, b) && lex_lt(b, c) ==> lex_lt(a, c),
        lex_lt(a, b) ==> a != b,
{
    crate::ordered::lemma_lex_total(a, b);
    crate::ordered::lemma_lex_irreflexive(a);
    if lex_lt(a, b) && lex_lt(b, a) {
        crate::ordered::lemma_lex_transitive(a, b, a);
    }
    if lex_lt(a, b) && lex_lt(b, c) {
        crate::ordered::lemma_lex_transitive(a, b, c);
    }
}

proof fn lemma_inventory_before_order(s: Seq<CodeInventoryCandidate>, i: int, j: int, k: int)
    ensures
        i != j ==> inventory_before(s, i, j) || inventory_before(s, j, i),
        !(inventory_before(s, i, j) && inventory_before(s, j, i)),
        inventory_before(s, i, j) && inventory_before(s, j, k) ==> inventory_before(s, i, k),
{
    let (ai, aj, ak) = (s[i].heading_anchor@, s[j].heading_anchor@, s[k].heading_anchor@);
    let (pi, pj, pk) = (s[i].relative_path@, s[j].relative_path@, s[k].relative_path@);
    lemma_lex_strict(ai, aj, ak);
    lemma_lex_strict(aj, ai, ak);
    lemma_lex_strict(ai, ak, aj);
    lemma_lex_strict(pi, pj, pk);
    lemma_lex_strict(pj, pi, pk);
    lemma_lex_strict(pi, pk, pj);
}

fn inventory_before_exec(s: &Vec<CodeInventoryCandidate>, i: usize, j: usize) -> (r: bool)
    requires
        i < s.len(),
        j < s.len(),
    ensures
        r == inventory_before(s@, i as int, j as int),
{
    let ai = chars_of(s[i].heading_anchor.as_str());
    let aj = chars_of(s[j].heading_anchor.as_str());
    if !vec_eq(&ai, &aj) {
        lex_less(&ai, &aj)
    } else {
        let pi = chars_of(s[i].relative_path.as_str());
        let pj = chars_of(s[j].relative_path.as_str());
        if !vec_eq(&pi, &pj) {
            lex_less(&pi, &pj)
        } else {
            i < j
        }
    }
}

/// An ordering of candidates: every index once, in inventory order.
pub open spec fn is_inventory_order(s: Seq<CodeInventoryCandidate>, order: Seq<int>) -> bool {
    &&& order.len() == s.len()
    &&& forall|k: int| 0 <= k < order.len() ==> 0 <= #[trigger] order[k] < s.len()
    &&& forall|a: int, b: int|
        0 <= a < b < order.len() ==> inventory_before(s, #[trigger] order[a], #[trigger] order[b])
}

fn inventory_order(s: &Vec<CodeInventoryCandidate>) -> (r: Vec<usize>)
    ensures
        is_inventory_order(s@, r@.map_values(|k: usize| k as int)),
{
    let mut out: Vec<usize> = Vec::new();
    let mut i: usize = 0;
    while i < s.len()
        invariant
            i <= s.len(),
            out@.len() == i,
            forall|k: int| 0 <= k < out@.len() ==> #[trigger] out@[k] < i,
            forall|a: int, b: int|
                0 <= a < b < out@.len() ==> inventory_before(
                    s@,
                    #[trigger] out@[a] as int,
                    #[trigger] out@[b] as int,
                ),
        decreases s.len() - i,
    {
        let mut p: usize = 0;
        while p < out.len() && !inventory_before_exec(s, i, out[p])
            invariant
                p <= out@.len(),
                i < s@.len(),
                forall|k: int| 0 <= k < out@.len() ==> #[trigger] out@[k] < i,
                forall|k: int| 0 <= k < p ==> !inventory_before(s@, i as int, #[trigger] out@[k] as int),
            decreases out@.len() - p,
        {
            p = p + 1;
        }
        let ghost before = out@;
        out.insert(p, i);
        proof {
            assert forall|a: int, b: int| 0 <= a < b < out@.len() implies inventory_before(
                s@,
                #[trigger] out@[a] as int,
                #[trigger] out@[b] as int,
            ) by {
                if b < p {
                    assert(out@[a] == before[a] && out@[b] == before[b]);
                } else if b == p {
                    assert(out@[a] == before[a] && out@[b] == i);
                    lemma_inventory_before_order(s@, i as int, before[a] as int, 0);
                } else if a == p {
                    assert(out@[a] == i && out@[b] == before[b - 1]);
                    if b - 1 > p {
                        lemma_inventory_before_order(
                            s@,
                            i as int,
                            before[p as int] as int,
                            before[b - 1] as int,
                        );
                    }
                } else if a < p {
                    assert(out@[a] == before[a] && out@[b] == before[b - 1]);
                } else {
                    assert(out@[a] == before[a - 1] && out@[b] == before[b - 1]);
                }
            }
            assert forall|k: int| 0 <= k < out@.len() implies #[trigger] out@[k] < i + 1 by {
                if k < p {
                    assert(out@[k] == before[k]);
                } else if k > p {
                    assert(out@[k] == before[k - 1]);
                }
            }
        }
        i = i + 1;
    }
    out
}

fn copy_candidate(c: &CodeInventoryCandidate) -> (r: CodeInventoryCandidate)
    ensures
        r.relative_path@ == c.relative_path@,
        r.heading_anchor@ == c.heading_anchor@,
        r.title@ == c.title@,
        r.line_start == c.line_start,
        r.line_end == c.line_end,
        r.context_cost == c.context_cost,
        r.evidence_coverage_permille == c.evidence_coverage_permille,
        r.graph_score_permille == c.graph_score_permille,
        r.authority_score_permille == c.authority_score_permille,
        r.structural_score_permille == c.structural_score_permille,
        r.uncertainty_permille == c.uncertainty_permille,
        r.blocked == c.blocked,
        r.edge_kinds.deep_view() == c.edge_kinds.deep_view(),
{
    let mut kinds: Vec<String> = Vec::new();
    let mut i: usize = 0;
    while i < c.edge_kinds.len()
        invariant
            i <= c.edge_kinds.len(),
            kinds.deep_view() == c.edge_kinds.deep_view().take(i as int),
        decreases c.edge_kinds.len() - i,
    {
        push_string(&mut kinds, string_of(&chars_of(c.edge_kinds[i].as_str())));
        i = i + 1;
        assert(kinds.deep_view() =~= c.edge_kinds.deep_view().take(i as int));
    }
    assert(c.edge_kinds.deep_view().take(c.edge_kinds.len() as int) =~= c.edge_kinds.deep_view());
    CodeInventoryCandidate {
        relative_path: string_of(&chars_of(c.relative_path.as_str())),
        heading_anchor: string_of(&chars_of(c.heading_anchor.as_str())),
        title: string_of(&chars_of(c.title.as_str())),
        line_start: c.line_start,
        line_end: c.line_end,
        context_cost: c.context_cost,
        evidence_coverage_permille: c.evidence_coverage_permille,
        graph_score_permille: c.graph_score_permille,
        authority_score_permille: c.authority_score_permille,
        structural_score_permille: c.structural_score_permille,
        uncertainty_permille: c.uncertainty_permille,
        blocked: c.blocked,
        edge_kinds: kinds,
    }
}

/// The candidates, in order, for the entries, in the given order.
pub open spec fn ordered_inventory(
    r: Seq<CodeInventoryCandidate>,
    entries: Seq<InventoryEntry>,
    unsorted: Seq<CodeInventoryCandidate>,
    order: Seq<int>,
) -> bool {
    &&& unsorted.len() == entries.len()
    &&& forall|k: int| 0 <= k < unsorted.len() ==> candidate_is(#[trigger] unsorted[k], entries[k])
    &&& is_inventory_order(unsorted, order)
    &&& r.len() == order.len()
    &&& forall|k: int| 0 <= k < r.len() ==> candidate_is(#[trigger] r[k], entries[order[k]])
}

/// The code-intelligence candidates of the files paths under the
/// configured source dirs (see `inventory_entries`), ordered by heading
/// anchor, then path, with equal ones kept as they came.
pub fn code_intelligence_inventory_candidates(include_dirs: &Vec<String>, tracked_paths: &Vec<
    String,
>) -> (r: Vec<CodeInventoryCandidate>)
    ensures
        exists|unsorted: Seq<CodeInventoryCandidate>, order: Seq<int>|
            #[trigger] ordered_inventory(
                r@,
                inventory_entries(include_dirs.deep_view(), tracked_paths.deep_view()),
                unsorted,
                order,
            ),
{
    let mut all: Vec<CodeInventoryCandidate> = Vec::new();
    let mut entries: Ghost<Seq<InventoryEntry>> = Ghost(Seq::empty());
    let ghost dirs = include_dirs.deep_view();
    let ghost files = tracked_paths.deep_view();
    if contains_str(include_dirs, WENDAO_RUST_SURFACE) {
        entries = push_group(&mut all, entries, tracked_paths, WENDAO_RUST_SURFACE, ".rs", "rust-control-plane-source", "rust");
        entries = push_group(&mut all, entries, tracked_paths, WENDAO_RUST_SURFACE, ".toml", "toml-config-boundary", "toml");
    }
    let ghost first = entries@;
    if contains_str(include_dirs, LINK_GRAPH_RUST_SURFACE) {
        entries = push_group(&mut all, entries, tracked_paths, LINK_GRAPH_RUST_SURFACE, ".rs", "link-graph-source-focus", "rust");
    }
    let ghost second = entries@;
    if contains_str(include_dirs, BENCHMARK_PYTHON_SURFACE) {
        entries = push_group(&mut all, entries, tracked_paths, BENCHMARK_PYTHON_SURFACE, ".py", "benchmark-python-adapter", "python");
        entries = push_group(&mut all, entries, tracked_paths, BENCHMARK_PYTHON_SURFACE, ".toml", "toml-config-boundary", "toml");
    }
    proof {
        let w = if dirs.contains(WENDAO_RUST_SURFACE@) {
            group(files, WENDAO_RUST_SURFACE@, ".rs"@, "rust-control-plane-source"@, "rust"@) + group(
                files,
                WENDAO_RUST_SURFACE@,
                ".toml"@,
                "toml-config-boundary"@,
                "toml"@,
            )
        } else {
            Seq::empty()
        };
        assert(first =~= w);
        let l = if dirs.contains(LINK_GRAPH_RUST_SURFACE@) {
            group(files, LINK_GRAPH_RUST_SURFACE@, ".rs"@, "link-graph-source-focus"@, "rust"@)
        } else {
            Seq::empty()
        };
        assert(second =~= w + l);
        assert(entries@ =~= inventory_entries(dirs, files));
    }
    let order = inventory_order(&all);
    let ghost ord = order@.map_values(|k: usize| k as int);
    let mut r: Vec<CodeInventoryCandidate> = Vec::new();
    let mut k: usize = 0;
    while k < order.len()
        invariant
            k <= order.len(),
            ord == order@.map_values(|k: usize| k as int),
            is_inventory_order(all@, ord),
            all.len() == entries@.len(),
            forall|j: int| 0 <= j < all.len() ==> candidate_is(#[trigger] all@[j], entries@[j]),
            r.len() == k,
            forall|j: int| 0 <= j < k ==> candidate_is(#[trigger] r@[j], entries@[ord[j]]),
        decreases order.len() - k,
    {
        assert(0 <= ord[k as int] < all.len());
        let c = copy_candidate(&all[order[k]]);
        let ghost before = r@;
        r.push(c);
        proof {
            assert(candidate_is(all@[ord[k as int]], entries@[ord[k as int]]));
            assert forall|j: int| 0 <= j < k + 1 implies candidate_is(#[trigger] r@[j], entries@[ord[j]]) by {
                if j < k {
                    assert(r@[j] == before[j]);
                }
            }
        }
        k = k + 1;
    }
    assert(ordered_inventory(r@, entries@, all@, ord));
    r
}


/// A Markdown file under one of the configured primary dirs: `docs`,
/// `semantic`, the Wendao crate or the benchmark package.
pub open spec fn primary_markdown(dirs: Seq<Seq<char>>, p: Seq<char>) -> bool {
    &&& ends_with(p, ".md"@)
    &&& {
        ||| (dirs.contains("docs"@) && path_under(p, "docs"@))
        ||| (dirs.contains("semantic"@) && path_under(p, "semantic"@))
        ||| (dirs.contains(WENDAO_RUST_SURFACE@) && path_under(p, WENDAO_RUST_SURFACE@))
        ||| (dirs.contains(BENCHMARK_PYTHON_SURFACE@) && path_under(p, BENCHMARK_PYTHON_SURFACE@))
    }
}

/// How many tracked files are primary Markdown documents.
pub fn primary_markdown_candidate_count(include_dirs: &Vec<String>, tracked_paths: &Vec<String>) -> (r:
    usize)
    ensures
        r == tracked_paths.deep_view().filter(|p: Seq<char>| primary_markdown(include_dirs.deep_view(), p)).len(),
{
    let ghost pred = |p: Seq<char>| primary_markdown(include_dirs.deep_view(), p);
    let docs = contains_str(include_dirs, "docs");
    let semantic = contains_str(include_dirs, "semantic");
    let wendao = contains_str(include_dirs, WENDAO_RUST_SURFACE);
    let bench = contains_str(include_dirs, BENCHMARK_PYTHON_SURFACE);
    let md = lit(".md");
    let mut n: usize = 0;
    let mut i: usize = 0;
    while i < tracked_paths.len()
        invariant
            i <= tracked_paths.len(),
            md@ == ".md"@,
            docs == include_dirs.deep_view().contains("docs"@),
            semantic == include_dirs.deep_view().contains("semantic"@),
            wendao == include_dirs.deep_view().contains(WENDAO_RUST_SURFACE@),
            bench == include_dirs.deep_view().contains(BENCHMARK_PYTHON_SURFACE@),
            pred == (|p: Seq<char>| primary_markdown(include_dirs.deep_view(), p)),
            n == tracked_paths.deep_view().take(i as int).filter(pred).len(),
            n <= i,
        decreases tracked_paths.len() - i,
    {
        let ghost prev = tracked_paths.deep_view().take(i as int);
        let ghost p = tracked_paths@[i as int]@;
        assert(tracked_paths.deep_view().take(i + 1) =~= prev.push(p));
        proof {
            prev.lemma_filter_push(p, pred);
        }
        let path = tracked_paths[i].as_str();
        if ends_with_vec(&chars_of(path), &md) && ((docs && path_is_under(path, "docs")) || (semantic
            && path_is_under(path, "semantic")) || (wendao && path_is_under(path, WENDAO_RUST_SURFACE))
            || (bench && path_is_under(path, BENCHMARK_PYTHON_SURFACE))) {
            n = n + 1;
        }
        i = i + 1;
    }
    assert(tracked_paths.deep_view().take(tracked_paths.len() as int) =~= tracked_paths.deep_view());
    n
}

/// Whether a candidate carries an edge kind.
pub open spec fn has_edge_kind(c: CodeInventoryCandidate, kind: Seq<char>) -> bool {
    c.edge_kinds.deep_view().contains(kind)
}

/// How many candidates carry an edge kind.
pub open spec fn edge_kind_count(s: Seq<CodeInventoryCandidate>, kind: Seq<char>) -> nat {
    s.filter(|c: CodeInventoryCandidate| has_edge_kind(c, kind)).len()
}

/// How many candidates carry an edge kind.
pub fn count_edge_kind(candidates: &Vec<CodeInventoryCandidate>, kind: &str) -> (r: usize)
    ensures
        r == edge_kind_count(candidates@, kind@),
{
    let ghost pred = |c: CodeInventoryCandidate| has_edge_kind(c, kind@);
    let mut n: usize = 0;
    let mut i: usize = 0;
    while i < candidates.len()
        invariant
            i <= candidates.len(),
            pred == (|c: CodeInventoryCandidate| has_edge_kind(c, kind@)),
            n == candidates@.take(i as int).filter(pred).len(),
            n <= i,
        decreases candidates.len() - i,
    {
        let ghost prev = candidates@.take(i as int);
        assert(candidates@.take(i + 1) =~= prev.push(candidates@[i as int]));
        proof {
            prev.lemma_filter_push(candidates@[i as int], pred);
        }
        if contains_str(&candidates[i].edge_kinds, kind) {
            n = n + 1;
        }
        i = i + 1;
    }
    assert(candidates@.take(candidates.len() as int) =~= candidates@);
    n
}

/// What the inventory of a project holds.
#[derive(Clone, Debug)]
pub struct CodeInventoryAudit {
    pub configured_include_dirs: Vec<String>,
    pub primary_markdown_count: usize,
    pub rust_control_plane_count: usize,
    pub link_graph_source_count: usize,
    pub toml_config_count: usize,
    pub benchmark_python_count: usize,
    pub total_candidate_count: usize,
}

/// The audit of an inventory: the configured dirs, the primary Markdown
/// count, and how many candidates carry each scenario's edge kind.
pub fn code_intelligence_inventory_audit(include_dirs: &Vec<String>, tracked_paths: &Vec<String>) -> (r:
    CodeInventoryAudit)
    ensures
        r.configured_include_dirs.deep_view() == include_dirs.deep_view(),
        r.primary_markdown_count == tracked_paths.deep_view().filter(
            |p: Seq<char>| primary_markdown(include_dirs.deep_view(), p),
        ).len(),
        exists|cands: Seq<CodeInventoryCandidate>, unsorted: Seq<CodeInventoryCandidate>, order: Seq<int>|
            #[trigger] ordered_inventory(
                cands,
                inventory_entries(include_dirs.deep_view(), tracked_paths.deep_view()),
                unsorted,
                order,
            ) && r.total_candidate_count == cands.len() && r.rust_control_plane_count
                == edge_kind_count(cands, "rust-control-plane-source"@) && r.link_graph_source_count
                == edge_kind_count(cands, "link-graph-source-focus"@) && r.toml_config_count
                == edge_kind_count(cands, "toml-config-boundary"@) && r.benchmark_python_count
                == edge_kind_count(cands, "benchmark-python-adapter"@),
{
    let candidates = code_intelligence_inventory_candidates(include_dirs, tracked_paths);
    let mut dirs: Vec<String> = Vec::new();
    let mut i: usize = 0;
    while i < include_dirs.len()
        invariant
            i <= include_dirs.len(),
            dirs.deep_view() == include_dirs.deep_view().take(i as int),
        decreases include_dirs.len() - i,
    {
        push_string(&mut dirs, string_of(&chars_of(include_dirs[i].as_str())));
        i = i + 1;
        assert(dirs.deep_view() =~= include_dirs.deep_view().take(i as int));
    }
    assert(include_dirs.deep_view().take(include_dirs.len() as int) =~= include_dirs.deep_view());
    let r = CodeInventoryAudit {
        configured_include_dirs: dirs,
        primary_markdown_count: primary_markdown_candidate_count(include_dirs, tracked_paths),
        rust_control_plane_count: count_edge_kind(&candidates, "rust-control-plane-source"),
        link_graph_source_count: count_edge_kind(&candidates, "link-graph-source-focus"),
        toml_config_count: count_edge_kind(&candidates, "toml-config-boundary"),
        benchmark_python_count: count_edge_kind(&candidates, "benchmark-python-adapter"),
        total_candidate_count: candidates.len(),
    };
    proof {
        let entries = inventory_entries(include_dirs.deep_view(), tracked_paths.deep_view());
        let (u, o) = choose|u: Seq<CodeInventoryCandidate>, o: Seq<int>|
            #[trigger] ordered_inventory(candidates@, entries, u, o);
        assert(ordered_inventory(candidates@, entries, u, o));
    }
    r
}


/// Whether `a` comes no later than `b` in lexicographic order.
pub open spec fn lex_le(a: Seq<char>, b: Seq<char>) -> bool {
    a == b || lex_lt(a, b)
}

/// The inventory comes sorted: by heading anchor, and by path among equal
/// anchors.
pub proof fn lemma_inventory_sorted(
    r: Seq<CodeInventoryCandidate>,
    entries: Seq<InventoryEntry>,
    unsorted: Seq<CodeInventoryCandidate>,
    order: Seq<int>,
)
    requires
        ordered_inventory(r, entries, unsorted, order),
    ensures
        forall|a: int, b: int|
            0 <= a < b < r.len() ==> lex_le(#[trigger] r[a].heading_anchor@, #[trigger] r[b].heading_anchor@)
                && (r[a].heading_anchor@ == r[b].heading_anchor@ ==> lex_le(
                r[a].relative_path@,
                r[b].relative_path@,
            )),
{
    assert forall|a: int, b: int| 0 <= a < b < r.len() implies lex_le(#[trigger] r[a].heading_anchor@, #[trigger] r[b].heading_anchor@)
        && (r[a].heading_anchor@ == r[b].heading_anchor@ ==> lex_le(
        r[a].relative_path@,
        r[b].relative_path@,
    )) by {
        let (i, j) = (order[a], order[b]);
        assert(inventory_before(unsorted, order[a], order[b]));
        assert(candidate_is(r[a], entries[i]) && candidate_is(unsorted[i], entries[i]));
        assert(candidate_is(r[b], entries[j]) && candidate_is(unsorted[j], entries[j]));
    }
}


/// Walk over the Wendao configs for the configured source dirs: the root
/// config, then each import in order, depth first, each config read once.
#[derive(Debug)]
pub struct IncludeDirsWalk {
    /// Configs still to read, the next one last.
    pub pending: Vec<String>,
    /// Keys of the configs read so far.
    pub visited: Vec<String>,
    /// The dirs gathered so far, sorted, each once.
    pub dirs: Vec<Vec<char>>,
}

impl IncludeDirsWalk {
    /// The gathered dirs are sorted, each once.
    pub open spec fn wf(&self) -> bool {
        strictly_sorted(seqs_of(self.dirs@))
    }

    /// A walk that starts at the root `wendao.toml`.
    pub fn new() -> (r: Self)
        ensures
            r.wf(),
            r.pending.deep_view() == seq!["wendao.toml"@],
            r.visited.len() == 0,
            r.dirs.len() == 0,
    {
        let mut pending: Vec<String> = Vec::new();
        push_string(&mut pending, "wendao.toml".to_owned());
        assert(pending.deep_view() =~= seq!["wendao.toml"@]);
        let r = IncludeDirsWalk { pending, visited: Vec::new(), dirs: Vec::new() };
        assert(seqs_of(r.dirs@) =~= Seq::<Seq<char>>::empty());
        r
    }

    /// The next config to read, taken off the pending list; none when the
    /// walk is over.
    pub fn next_config(&mut self) -> (r: Option<String>)
        ensures
            final(self).visited.deep_view() == old(self).visited.deep_view(),
            final(self).dirs@ == old(self).dirs@,
            old(self).pending.len() == 0 ==> r is None && final(self).pending.len() == 0,
            old(self).pending.len() > 0 ==> (r matches Some(p) && p@ == old(self).pending.deep_view().last()
                && final(self).pending.deep_view() == old(self).pending.deep_view().drop_last()),
    {
        let ghost before = self.pending.deep_view();
        let r = self.pending.pop();
        proof {
            if before.len() > 0 {
                assert(self.pending.deep_view() =~= before.drop_last());
            }
        }
        r
    }

    /// Marks a config as read; false when it was read before.
    pub fn enter(&mut self, key: String) -> (fresh: bool)
        ensures
            final(self).pending.deep_view() == old(self).pending.deep_view(),
            final(self).dirs@ == old(self).dirs@,
            fresh == !old(self).visited.deep_view().contains(key@),
            fresh ==> final(self).visited.deep_view() == old(self).visited.deep_view().push(key@),
            !fresh ==> final(self).visited.deep_view() == old(self).visited.deep_view(),
    {
        if contains_str(&self.visited, key.as_str()) {
            return false;
        }
        push_string(&mut self.visited, key);
        true
    }

    /// Takes what one config declares: its `link_graph.include_dirs`, and
    /// the configs it imports, in order; the imports are read next.
    pub fn on_config(&mut self, dirs: &Vec<String>, imports: Vec<String>)
        requires
            old(self).wf(),
        ensures
            final(self).wf(),
            final(self).visited.deep_view() == old(self).visited.deep_view(),
            final(self).pending.deep_view() == old(self).pending.deep_view() + imports.deep_view().reverse(),
            forall|d: Seq<char>| #[trigger] seqs_of(final(self).dirs@).contains(d) <==> (seqs_of(old(self).dirs@).contains(d)
                || dirs.deep_view().contains(d)),
    {
        let ghost start = seqs_of(self.dirs@);
        let mut i: usize = 0;
        while i < dirs.len()
            invariant
                i <= dirs.len(),
                self.wf(),
                self.visited.deep_view() == old(self).visited.deep_view(),
                self.pending.deep_view() == old(self).pending.deep_view(),
                forall|d: Seq<char>| #[trigger] seqs_of(self.dirs@).contains(d) <==> (start.contains(d)
                    || dirs.deep_view().take(i as int).contains(d)),
            decreases dirs.len() - i,
        {
            let x = chars_of(dirs[i].as_str());
            let ghost pre = dirs.deep_view().take(i as int);
            let ghost now = dirs.deep_view().take(i + 1);
            assert(now =~= pre.push(x@));
            crate::ordered::insert_sorted_unique(&mut self.dirs, x);
            proof {
                assert forall|d: Seq<char>| #[trigger] seqs_of(self.dirs@).contains(d) <==> (start.contains(d)
                    || now.contains(d)) by {
                    if now.contains(d) && d != x@ {
                        let k = choose|k: int| 0 <= k < now.len() && now[k] == d;
                        assert(pre[k] == d);
                    }
                    if pre.contains(d) {
                        let k = choose|k: int| 0 <= k < pre.len() && pre[k] == d;
                        assert(now[k] == d);
                    }
                    if d == x@ {
                        assert(now[i as int] == d);
                    }
                }
            }
            i = i + 1;
        }
        assert(dirs.deep_view().take(dirs.len() as int) =~= dirs.deep_view());
        let mut imports = imports;
        let ghost imp = imports.deep_view();
        let ghost base = self.pending.deep_view();
        let ghost gathered = self.dirs@;
        while imports.len() > 0
            invariant
                self.pending.deep_view() == base + imp.skip(imports.len() as int).reverse(),
                imports.deep_view() == imp.take(imports.len() as int),
                imports.len() <= imp.len(),
                self.dirs@ == gathered,
                self.visited.deep_view() == old(self).visited.deep_view(),
            decreases imports.len(),
        {
            let ghost n = imports.len();
            let ghost held = imports@;
            let last = imports.pop().unwrap();
            proof {
                assert(imports.deep_view() =~= imp.take(n - 1));
                assert(last == held[n - 1]);
                assert(held[n - 1]@ == imp.take(n as int)[n - 1]);
            }
            push_string(&mut self.pending, last);
            proof {
                assert(imp.skip(n - 1).reverse() =~= imp.skip(n as int).reverse().push(imp[n - 1]));
            }
        }
        assert(imp.skip(0) =~= imp);
    }

    /// The configured source dirs, sorted, each once.
    pub fn into_include_dirs(self) -> (r: Vec<String>)
        requires
            self.wf(),
        ensures
            strictly_sorted(r.deep_view()),
            r.deep_view() == seqs_of(self.dirs@),
    {
        let r = crate::text::strings_of(&self.dirs);
        r
    }
}

} // verus!
