//! Decisions of one retrieval-route materialization: which repo-search row
//! seeds the page index, which page-index node the route resolves to, and
//! the receipt that the four Flight reads leave behind.
use vstd::prelude::*;
use crate::flight_ids::{
    graph_node_display_id, graph_node_display_id_spec, has_markdown_extension,
    is_page_index_candidate_path, normalized_repo_search_doc_id,
    normalized_repo_search_doc_id_spec, prefixed_evidence_anchor, prefixed_evidence_anchor_spec,
    projected_page_id, projected_page_id_spec, repo_relative_source_path,
    repo_relative_source_path_spec,
};
use crate::flight_query::{
    attempts_view, repo_search_attempts_for_route, repo_search_attempts_for_route_spec,
    RepoSearchAttempt,
};
use crate::repo_discovery::{attempt_label, candidate_discovery_attempt_label, REPO_SEARCH_LIMIT};
use crate::text::{
    append_chars, ascii_lower, char_is_ascii_alnum, char_to_ascii_lower, chars_of, concat2,
    decimal, decimal_text, ends_with, ends_with_vec, is_ascii_alnum, join, join_vecs, lit,
    is_blank, is_blank_vec, seqs_of, string_of, vec_eq,
};

verus! {

/// Slug of an anchor, built left to right: the runs of ASCII letters and
/// digits, lowercased, with one `-` between two runs. The flag says whether
/// a separator has been seen since the last letter or digit.
pub open spec fn slug_fold(s: Seq<char>) -> (Seq<char>, bool)
    decreases s.len(),
{
    if s.len() == 0 {
        (Seq::empty(), false)
    } else {
        let (out, gap) = slug_fold(s.drop_last());
        let c = s.last();
        if is_ascii_alnum(c) {
            let base = if gap && out.len() > 0 {
                out.push('-')
            } else {
                out
            };
            (base.push(ascii_lower(c)), false)
        } else {
            (out, true)
        }
    }
}

/// The normalized form of an anchor or a title.
pub open spec fn normalize_anchor_spec(value: Seq<char>) -> Seq<char> {
    slug_fold(value).0
}

/// Normalizes an anchor: ASCII letters and digits lowercased, every run of
/// other characters collapsed to one `-`, none at either end.
pub fn normalize_anchor(value: &str) -> (r: String)
    ensures
        r@ == normalize_anchor_spec(value@),
{
    let v = chars_of(value);
    let mut out: Vec<char> = Vec::new();
    let mut gap = false;
    let mut i: usize = 0;
    while i < v.len()
        invariant
            i <= v.len(),
            v@ == value@,
            slug_fold(v@.take(i as int)) == (out@, gap),
        decreases v.len() - i,
    {
        let c = v[i];
        assert(v@.take(i + 1).drop_last() =~= v@.take(i as int));
        assert(v@.take(i + 1).last() == c);
        if char_is_ascii_alnum(c) {
            if gap && out.len() > 0 {
                out.push('-');
            }
            out.push(char_to_ascii_lower(c));
            gap = false;
        } else {
            gap = true;
        }
        i = i + 1;
    }
    assert(v@.take(v.len() as int) =~= v@);
    string_of(&out)
}

/// One node of a projected page-index tree, as the tree's JSON gives it:
/// its `node_id`, the string values of its `anchor`, `headingAnchor` and
/// `slug` keys in that order, its `title`, and its children in order.
#[derive(Debug)]
pub struct PageIndexNode {
    pub node_id: Option<String>,
    pub anchors: Vec<String>,
    pub title: Option<String>,
    pub children: Vec<PageIndexNode>,
}

pub open spec fn opt_view(o: Option<String>) -> Option<Seq<char>> {
    match o {
        Some(s) => Some(s@),
        None => None,
    }
}

/// Whether a node answers to an anchor: one of its anchor keys or its title
/// normalizes to the anchor's slug, or its node id ends with the anchor.
pub open spec fn node_answers(n: PageIndexNode, anchor: Seq<char>) -> bool {
    let slug = normalize_anchor_spec(anchor);
    ||| exists|k: int|
        0 <= k < n.anchors.len() && normalize_anchor_spec(#[trigger] n.anchors@[k]@) == slug
    ||| (n.title matches Some(t) && normalize_anchor_spec(t@) == slug)
    ||| (n.node_id matches Some(id) && ends_with(id@, anchor))
}

/// Depth-first, in document order: the node id of the first node that
/// answers to the anchor. A node that answers without a node id yields
/// nothing, and its children are not searched.
pub open spec fn find_in_nodes(nodes: Seq<PageIndexNode>, i: int, anchor: Seq<char>) -> Option<
    Seq<char>,
>
    decreases nodes, nodes.len() - i,
{
    if 0 <= i < nodes.len() {
        match find_in_node(nodes[i], anchor) {
            Some(id) => Some(id),
            None => find_in_nodes(nodes, i + 1, anchor),
        }
    } else {
        None
    }
}

pub open spec fn find_in_node(n: PageIndexNode, anchor: Seq<char>) -> Option<Seq<char>>
    decreases n, 0int,
{
    if node_answers(n, anchor) {
        opt_view(n.node_id)
    } else {
        find_in_nodes(n.children@, 0, anchor)
    }
}

/// Depth-first, in document order: the first node id of the tree.
pub open spec fn first_id_in_nodes(nodes: Seq<PageIndexNode>, i: int) -> Option<Seq<char>>
    decreases nodes, nodes.len() - i,
{
    if 0 <= i < nodes.len() {
        match first_id_in_node(nodes[i]) {
            Some(id) => Some(id),
            None => first_id_in_nodes(nodes, i + 1),
        }
    } else {
        None
    }
}

pub open spec fn first_id_in_node(n: PageIndexNode) -> Option<Seq<char>>
    decreases n, 0int,
{
    match n.node_id {
        Some(id) => Some(id@),
        None => first_id_in_nodes(n.children@, 0),
    }
}

fn copy_string(s: &String) -> (r: String)
    ensures
        r@ == s@,
{
    string_of(&chars_of(s.as_str()))
}

fn node_answers_exec(n: &PageIndexNode, anchor: &str, slug: &String) -> (b: bool)
    requires
        slug@ == normalize_anchor_spec(anchor@),
    ensures
        b == node_answers(*n, anchor@),
{
    let mut k: usize = 0;
    while k < n.anchors.len()
        invariant
            k <= n.anchors.len(),
            slug@ == normalize_anchor_spec(anchor@),
            forall|j: int| 0 <= j < k ==> normalize_anchor_spec(#[trigger] n.anchors@[j]@) != slug@,
        decreases n.anchors.len() - k,
    {
        let a = normalize_anchor(n.anchors[k].as_str());
        if vec_eq(&chars_of(a.as_str()), &chars_of(slug.as_str())) {
            return true;
        }
        k = k + 1;
    }
    if let Some(t) = &n.title {
        let a = normalize_anchor(t.as_str());
        if vec_eq(&chars_of(a.as_str()), &chars_of(slug.as_str())) {
            return true;
        }
    }
    if let Some(id) = &n.node_id {
        if ends_with_vec(&chars_of(id.as_str()), &chars_of(anchor)) {
            return true;
        }
    }
    false
}

fn find_in_node_exec(n: &PageIndexNode, anchor: &str, slug: &String) -> (r: Option<String>)
    requires
        slug@ == normalize_anchor_spec(anchor@),
    ensures
        opt_view(r) == find_in_node(*n, anchor@),
    decreases n, 0int,
{
    if node_answers_exec(n, anchor, slug) {
        match &n.node_id {
            Some(id) => Some(copy_string(id)),
            None => None,
        }
    } else {
        find_in_nodes_exec(&n.children, anchor, slug)
    }
}

fn find_in_nodes_exec(nodes: &Vec<PageIndexNode>, anchor: &str, slug: &String) -> (r: Option<
    String,
>)
    requires
        slug@ == normalize_anchor_spec(anchor@),
    ensures
        opt_view(r) == find_in_nodes(nodes@, 0, anchor@),
    decreases nodes@, 1int,
{
    let ghost s = nodes@;
    let mut i: usize = nodes.len();
    let mut found: Option<String> = None;
    while i > 0
        invariant
            i <= nodes.len(),
            s == nodes@,
            slug@ == normalize_anchor_spec(anchor@),
            opt_view(found) == find_in_nodes(s, i as int, anchor@),
        decreases i,
    {
        i = i - 1;
        assert(decreases_to!(s => s[i as int]));
        let here = find_in_node_exec(&nodes[i], anchor, slug);
        if here.is_some() {
            found = here;
        }
    }
    found
}

fn first_id_in_node_exec(n: &PageIndexNode) -> (r: Option<String>)
    ensures
        opt_view(r) == first_id_in_node(*n),
    decreases n, 0int,
{
    match &n.node_id {
        Some(id) => Some(copy_string(id)),
        None => first_id_in_nodes_exec(&n.children),
    }
}

fn first_id_in_nodes_exec(nodes: &Vec<PageIndexNode>) -> (r: Option<String>)
    ensures
        opt_view(r) == first_id_in_nodes(nodes@, 0),
    decreases nodes@, 1int,
{
    let ghost s = nodes@;
    let mut i: usize = nodes.len();
    let mut found: Option<String> = None;
    while i > 0
        invariant
            i <= nodes.len(),
            s == nodes@,
            opt_view(found) == first_id_in_nodes(s, i as int),
        decreases i,
    {
        i = i - 1;
        assert(decreases_to!(s => s[i as int]));
        let here = first_id_in_node_exec(&nodes[i]);
        if here.is_some() {
            found = here;
        }
    }
    found
}

/// The node id of the first page-index node, depth first, that answers to
/// the anchor (see `node_answers`).
pub fn find_node_id_by_anchor_or_title(roots: &Vec<PageIndexNode>, anchor: &str) -> (r: Option<
    String,
>)
    ensures
        opt_view(r) == find_in_nodes(roots@, 0, anchor@),
{
    let slug = normalize_anchor(anchor);
    find_in_nodes_exec(roots, anchor, &slug)
}

/// The first node id of the page-index tree, depth first.
pub fn first_node_id(roots: &Vec<PageIndexNode>) -> (r: Option<String>)
    ensures
        opt_view(r) == first_id_in_nodes(roots@, 0),
{
    first_id_in_nodes_exec(roots)
}


/// One row of a repo-search answer: its path column, its navigation path
/// column and its document id column, each absent where the column is
/// missing, not text, or null.
#[derive(Clone, Debug)]
pub struct RepoSearchRow {
    pub path: Option<String>,
    pub navigation_path: Option<String>,
    pub doc_id: Option<String>,
}

/// The path of a row: its path column, else its navigation path.
pub open spec fn row_path(r: RepoSearchRow) -> Option<Seq<char>> {
    match r.path {
        Some(p) => Some(p@),
        None => opt_view(r.navigation_path),
    }
}

/// Whether a row can seed a page index: it has a path, that path relative
/// to the repo is a Markdown document, and it is the preferred source path
/// (also taken relative to the repo) where one is given.
pub open spec fn row_seeds(r: RepoSearchRow, repo_id: Seq<char>, preferred: Option<Seq<char>>) -> bool {
    match row_path(r) {
        Some(p) => {
            let rel = repo_relative_source_path_spec(repo_id, p);
            &&& has_markdown_extension(rel)
            &&& match preferred {
                Some(q) => rel == repo_relative_source_path_spec(repo_id, q),
                None => true,
            }
        },
        None => false,
    }
}

/// The first seeding row from position `i` on: its repo-relative path and
/// its document id.
pub open spec fn first_seed_row(
    rows: Seq<RepoSearchRow>,
    i: int,
    repo_id: Seq<char>,
    preferred: Option<Seq<char>>,
) -> Option<(Seq<char>, Option<Seq<char>>)>
    decreases rows.len() - i,
{
    if 0 <= i < rows.len() {
        if row_seeds(rows[i], repo_id, preferred) {
            Some(
                (
                    repo_relative_source_path_spec(repo_id, row_path(rows[i]).unwrap()),
                    opt_view(rows[i].doc_id),
                ),
            )
        } else {
            first_seed_row(rows, i + 1, repo_id, preferred)
        }
    } else {
        None
    }
}

pub open spec fn pair_view(r: Option<(String, Option<String>)>) -> Option<(Seq<char>, Option<Seq<char>>)> {
    match r {
        Some((p, d)) => Some((p@, opt_view(d))),
        None => None,
    }
}

pub open spec fn str_opt_view(o: Option<&str>) -> Option<Seq<char>> {
    match o {
        Some(s) => Some(s@),
        None => None,
    }
}

fn copy_opt(o: &Option<String>) -> (r: Option<String>)
    ensures
        opt_view(r) == opt_view(*o),
{
    match o {
        Some(s) => Some(copy_string(s)),
        None => None,
    }
}

/// The first repo-search row, in answer order, that can seed a page index
/// (see `row_seeds`): its repo-relative path and its document id.
pub fn first_page_index_repo_search_row(
    rows: &Vec<RepoSearchRow>,
    repo_id: &str,
    preferred_source_path: Option<&str>,
) -> (r: Option<(String, Option<String>)>)
    ensures
        pair_view(r) == first_seed_row(rows@, 0, repo_id@, str_opt_view(preferred_source_path)),
{
    let ghost pref = str_opt_view(preferred_source_path);
    let preferred: Option<String> = match preferred_source_path {
        Some(q) => Some(repo_relative_source_path(repo_id, q)),
        None => None,
    };
    let mut i: usize = rows.len();
    let mut found: Option<(String, Option<String>)> = None;
    while i > 0
        invariant
            i <= rows.len(),
            pref == str_opt_view(preferred_source_path),
            match preferred {
                Some(q) => pref matches Some(p) && q@ == repo_relative_source_path_spec(repo_id@, p),
                None => pref is None,
            },
            pair_view(found) == first_seed_row(rows@, i as int, repo_id@, pref),
        decreases i,
    {
        i = i - 1;
        let row = &rows[i];
        let path = match &row.path {
            Some(p) => Some(p),
            None => match &row.navigation_path {
                Some(p) => Some(p),
                None => None,
            },
        };
        if let Some(p) = path {
            let rel = repo_relative_source_path(repo_id, p.as_str());
            let wanted = match &preferred {
                Some(q) => vec_eq(&chars_of(rel.as_str()), &chars_of(q.as_str())),
                None => true,
            };
            if is_page_index_candidate_path(rel.as_str()) && wanted {
                found = Some((rel, copy_opt(&row.doc_id)));
            }
        }
    }
    found
}

/// Route of the repo-search read.
pub const REPO_SEARCH_ROUTE: &'static str = "/search/repos/main";

/// Route of the projected page-index tree read.
pub const PAGE_INDEX_TREE_ROUTE: &'static str = "/analysis/repo-projected-page-index-tree";

/// Route of the projected retrieval-context read.
pub const RETRIEVAL_CONTEXT_ROUTE: &'static str = "/analysis/repo-projected-retrieval-context";

/// Route of the graph-neighbor read.
pub const GRAPH_NEIGHBORS_ROUTE: &'static str = "/graph/neighbors";

/// How many related nodes one retrieval-context read asks for.
pub const RELATED_CONTEXT_LIMIT: usize = 5;

/// How far one graph-neighbor read walks.
pub const GRAPH_HOPS: usize = 2;

/// How many neighbors one graph-neighbor read asks for.
pub const GRAPH_LIMIT: usize = 50;

/// Rows one route read returned.
#[derive(Clone, Debug)]
pub struct RouteRowReceipt {
    pub route: String,
    pub row_count: usize,
}

impl View for RouteRowReceipt {
    type V = (Seq<char>, usize);

    open spec fn view(&self) -> (Seq<char>, usize) {
        (self.route@, self.row_count)
    }
}

/// What one route read decoded: its rows, the columns it read, and the
/// evidence anchor that ties the answer to the route.
#[derive(Clone, Debug)]
pub struct DecodedPayloadReceipt {
    pub route: String,
    pub row_count: usize,
    pub decoded_columns: Vec<String>,
    pub evidence_anchor: String,
}

pub open spec fn strings_view(v: Seq<String>) -> Seq<Seq<char>> {
    v.map_values(|s: String| s@)
}

impl View for DecodedPayloadReceipt {
    type V = (Seq<char>, usize, Seq<Seq<char>>, Seq<char>);

    open spec fn view(&self) -> (Seq<char>, usize, Seq<Seq<char>>, Seq<char>) {
        (self.route@, self.row_count, strings_view(self.decoded_columns@), self.evidence_anchor@)
    }
}

pub open spec fn row_receipts_view(v: Seq<RouteRowReceipt>) -> Seq<(Seq<char>, usize)> {
    v.map_values(|r: RouteRowReceipt| r@)
}

pub open spec fn decoded_receipts_view(v: Seq<DecodedPayloadReceipt>) -> Seq<
    (Seq<char>, usize, Seq<Seq<char>>, Seq<char>),
> {
    v.map_values(|r: DecodedPayloadReceipt| r@)
}

/// The row receipts of the four reads, in read order.
pub open spec fn route_receipts_spec(
    repo_search_rows: usize,
    page_index_rows: usize,
    retrieval_context_rows: usize,
    graph_rows: usize,
) -> Seq<(Seq<char>, usize)> {
    seq![
        (REPO_SEARCH_ROUTE@, repo_search_rows),
        (PAGE_INDEX_TREE_ROUTE@, page_index_rows),
        (RETRIEVAL_CONTEXT_ROUTE@, retrieval_context_rows),
        (GRAPH_NEIGHBORS_ROUTE@, graph_rows),
    ]
}

fn row_receipt(route: &str, row_count: usize) -> (r: RouteRowReceipt)
    ensures
        r@ == (route@, row_count),
{
    RouteRowReceipt { route: route.to_owned(), row_count }
}

/// Row receipts of the four reads, in read order.
pub fn route_receipts(
    repo_search_rows: usize,
    page_index_rows: usize,
    retrieval_context_rows: usize,
    graph_rows: usize,
) -> (r: Vec<RouteRowReceipt>)
    ensures
        row_receipts_view(r@) == route_receipts_spec(
            repo_search_rows,
            page_index_rows,
            retrieval_context_rows,
            graph_rows,
        ),
{
    let r = vec![
        row_receipt(REPO_SEARCH_ROUTE, repo_search_rows),
        row_receipt(PAGE_INDEX_TREE_ROUTE, page_index_rows),
        row_receipt(RETRIEVAL_CONTEXT_ROUTE, retrieval_context_rows),
        row_receipt(GRAPH_NEIGHBORS_ROUTE, graph_rows),
    ];
    assert(row_receipts_view(r@) =~= route_receipts_spec(
        repo_search_rows,
        page_index_rows,
        retrieval_context_rows,
        graph_rows,
    ));
    r
}

/// The decoded-payload receipts of the four reads, in read order.
pub open spec fn decoded_payload_receipts_spec(
    repo_search_path: Seq<char>,
    repo_search_columns: Seq<Seq<char>>,
    repo_search_rows: usize,
    page_index_rows: usize,
    retrieval_context_rows: usize,
    retrieval_node_id: Seq<char>,
    graph_rows: usize,
    node_id: Seq<char>,
    graph_node_id: Seq<char>,
) -> Seq<(Seq<char>, usize, Seq<Seq<char>>, Seq<char>)> {
    seq![
        (REPO_SEARCH_ROUTE@, repo_search_rows, repo_search_columns, "path:"@ + repo_search_path),
        (
            PAGE_INDEX_TREE_ROUTE@,
            page_index_rows,
            seq!["pageId"@, "rootCount"@, "rootsJson"@],
            prefixed_evidence_anchor_spec("node"@, node_id),
        ),
        (
            RETRIEVAL_CONTEXT_ROUTE@,
            retrieval_context_rows,
            seq!["pageId"@, "nodeId"@, "centerJson"@, "nodeContextJson"@],
            "node-context:"@ + retrieval_node_id,
        ),
        (GRAPH_NEIGHBORS_ROUTE@, graph_rows, seq!["rowType"@], "graph-node:"@ + graph_node_id),
    ]
}

fn owned_strings(v: &[&str]) -> (r: Vec<String>)
    ensures
        strings_view(r@) == v@.map_values(|s: &str| s@),
{
    let mut r: Vec<String> = Vec::new();
    let mut i: usize = 0;
    while i < v.len()
        invariant
            i <= v.len(),
            strings_view(r@) == v@.take(i as int).map_values(|s: &str| s@),
        decreases v.len() - i,
    {
        let ghost before = strings_view(r@);
        let x = v[i].to_owned();
        r.push(x);
        assert(strings_view(r@) =~= before.push(x@));
        assert(v@.take(i + 1) =~= v@.take(i as int).push(v@[i as int]));
        i = i + 1;
        assert(strings_view(r@) =~= v@.take(i as int).map_values(|s: &str| s@));
    }
    assert(v@.take(v.len() as int) =~= v@);
    r
}

fn copy_strings(v: &Vec<String>) -> (r: Vec<String>)
    ensures
        strings_view(r@) == strings_view(v@),
{
    let mut r: Vec<String> = Vec::new();
    let mut i: usize = 0;
    while i < v.len()
        invariant
            i <= v.len(),
            strings_view(r@) == strings_view(v@.take(i as int)),
        decreases v.len() - i,
    {
        let ghost before = strings_view(r@);
        let x = copy_string(&v[i]);
        r.push(x);
        assert(strings_view(r@) =~= before.push(x@));
        assert(v@.take(i + 1) =~= v@.take(i as int).push(v@[i as int]));
        i = i + 1;
        assert(strings_view(r@) =~= strings_view(v@.take(i as int)));
    }
    assert(v@.take(v.len() as int) =~= v@);
    r
}

fn prefixed(prefix: &str, value: &str) -> (r: String)
    ensures
        r@ == prefix@ + value@,
{
    string_of(&concat2(&chars_of(prefix), &chars_of(value)))
}

/// Decoded-payload receipts of the four reads, in read order. The
/// retrieval-context anchor needs the first node id of that read; where the
/// read gave none, its error is returned.
pub fn decoded_payload_receipts(
    repo_search_path: &str,
    repo_search_columns: &Vec<String>,
    repo_search_rows: usize,
    page_index_rows: usize,
    retrieval_context_rows: usize,
    retrieval_node_id: &Result<String, String>,
    graph_rows: usize,
    node_id: &str,
    graph_node_id: &str,
) -> (r: Result<Vec<DecodedPayloadReceipt>, String>)
    ensures
        match (r, retrieval_node_id) {
            (Ok(v), Ok(ctx)) => decoded_receipts_view(v@) == decoded_payload_receipts_spec(
                repo_search_path@,
                strings_view(repo_search_columns@),
                repo_search_rows,
                page_index_rows,
                retrieval_context_rows,
                ctx@,
                graph_rows,
                node_id@,
                graph_node_id@,
            ),
            (Err(e), Err(msg)) => e@ == msg@,
            _ => false,
        },
{
    let ctx = match retrieval_node_id {
        Ok(ctx) => ctx,
        Err(msg) => return Err(copy_string(msg)),
    };
    let page_cols: [&str; 3] = ["pageId", "rootCount", "rootsJson"];
    let ctx_cols: [&str; 4] = ["pageId", "nodeId", "centerJson", "nodeContextJson"];
    let graph_cols: [&str; 1] = ["rowType"];
    let v = vec![
        DecodedPayloadReceipt {
            route: REPO_SEARCH_ROUTE.to_owned(),
            row_count: repo_search_rows,
            decoded_columns: copy_strings(repo_search_columns),
            evidence_anchor: prefixed("path:", repo_search_path),
        },
        DecodedPayloadReceipt {
            route: PAGE_INDEX_TREE_ROUTE.to_owned(),
            row_count: page_index_rows,
            decoded_columns: owned_strings(&page_cols),
            evidence_anchor: prefixed_evidence_anchor("node", node_id),
        },
        DecodedPayloadReceipt {
            route: RETRIEVAL_CONTEXT_ROUTE.to_owned(),
            row_count: retrieval_context_rows,
            decoded_columns: owned_strings(&ctx_cols),
            evidence_anchor: prefixed("node-context:", ctx.as_str()),
        },
        DecodedPayloadReceipt {
            route: GRAPH_NEIGHBORS_ROUTE.to_owned(),
            row_count: graph_rows,
            decoded_columns: owned_strings(&graph_cols),
            evidence_anchor: prefixed("graph-node:", graph_node_id),
        },
    ];
    proof {
        assert(page_cols@.map_values(|s: &str| s@) =~= seq!["pageId"@, "rootCount"@, "rootsJson"@]);
        assert(ctx_cols@.map_values(|s: &str| s@) =~= seq![
            "pageId"@,
            "nodeId"@,
            "centerJson"@,
            "nodeContextJson"@,
        ]);
        assert(graph_cols@.map_values(|s: &str| s@) =~= seq!["rowType"@]);
        assert(decoded_receipts_view(v@) =~= decoded_payload_receipts_spec(
            repo_search_path@,
            strings_view(repo_search_columns@),
            repo_search_rows,
            page_index_rows,
            retrieval_context_rows,
            ctx@,
            graph_rows,
            node_id@,
            graph_node_id@,
        ));
    }
    Ok(v)
}


/// How far materializing one route has come: which read it waits for.
#[derive(Clone, Copy, Debug, PartialEq, Eq, Structural)]
pub enum RouteStage {
    RepoSearch,
    PageIndex,
    RetrievalContext,
    GraphNeighbors,
    Done,
}

/// One read that materializing a route asks for.
#[derive(Clone, Debug)]
pub enum RouteRead {
    RepoSearch { query: String, path_prefix: String, limit: usize },
    PageIndexTree { page_id: String },
    RetrievalContext { page_id: String, node_id: String, related_limit: usize },
    GraphNeighbors { node_id: String, direction: String, hops: usize, limit: usize },
}

/// What the four reads of one route resolved and returned.
#[derive(Clone, Debug)]
pub struct SearchStrategyFlowRouteReceipt {
    pub materialized_rows: usize,
    pub resolved_page_id: String,
    pub resolved_node_id: String,
    pub resolved_graph_node_id: String,
    pub route_receipts: Vec<RouteRowReceipt>,
    pub decoded_payload_receipts: Vec<DecodedPayloadReceipt>,
}

/// The next thing to do for a route: a read, or the end with a receipt or
/// an error.
#[derive(Clone, Debug)]
pub enum RouteStep {
    Read(RouteRead),
    Finished(SearchStrategyFlowRouteReceipt),
    Failed(String),
}

/// Materialization of one retrieval route, driven by the caller: each
/// method takes what a read returned and says what to do next.
#[derive(Debug)]
pub struct RouteMaterialization {
    pub repo_id: String,
    pub heading_anchor: Option<String>,
    pub route_source_path: String,
    pub repo_search_columns: Vec<String>,
    pub attempts: Vec<RepoSearchAttempt>,
    pub stage: RouteStage,
    pub attempt: usize,
    pub repo_search_rows: usize,
    pub page_index_rows: usize,
    pub retrieval_context_rows: usize,
    pub repo_search_path: String,
    pub page_id: String,
    pub node_id: String,
    pub graph_node_id: String,
    pub retrieval_node_id: Result<String, String>,
}

/// The error when no repo-search attempt found a row that can seed a page
/// index.
pub open spec fn exhausted_message(attempts: Seq<(Seq<char>, Seq<char>)>) -> Seq<char> {
    "SearchStrategyFlow repo search materialization returned zero page-index-ready decoded rows after "@
        + decimal(attempts.len()) + " attempts: "@ + join(
        attempts.map_values(|a: (Seq<char>, Seq<char>)| attempt_label(a.0, a.1)),
        "; "@,
    )
}

/// The error of a route whose source path is blank.
pub open spec fn missing_source_path_message() -> Seq<char> {
    "SearchStrategyFlow retrieval route missing `sourcePath`"@
}

/// The error of a page-index read that returned no row.
pub open spec fn empty_page_index_message() -> Seq<char> {
    "SearchStrategyFlow page-index materialization returned zero decoded rows"@
}

/// The error of a retrieval-context read that returned no row.
pub open spec fn empty_retrieval_context_message() -> Seq<char> {
    "SearchStrategyFlow retrieval-context materialization returned zero decoded rows"@
}

/// The error of a graph-neighbor read that returned no row.
pub open spec fn empty_graph_neighbors_message() -> Seq<char> {
    "SearchStrategyFlow graph-neighbor materialization returned zero decoded rows"@
}

/// The error when the page-index tree has no node to resolve to.
pub open spec fn missing_node_message() -> Seq<char> {
    "SearchStrategyFlow page-index tree did not expose a node id"@
}

/// Whether a step asks for the repo-search read of an attempt.
pub open spec fn reads_attempt(step: RouteStep, a: (Seq<char>, Seq<char>)) -> bool {
    step matches RouteStep::Read(RouteRead::RepoSearch { query, path_prefix, limit })
        && query@ == a.0 && path_prefix@ == a.1 && limit == REPO_SEARCH_LIMIT
}

/// The node a route resolves to in its page-index tree: the first node that
/// answers to its heading anchor, else the first node.
pub open spec fn resolved_node(anchor: Option<Seq<char>>, roots: Seq<PageIndexNode>) -> Option<Seq<char>> {
    match anchor {
        Some(a) => match find_in_nodes(roots, 0, a) {
            Some(id) => Some(id),
            None => first_id_in_nodes(roots, 0),
        },
        None => first_id_in_nodes(roots, 0),
    }
}

/// The repo-search row a route settles on once some row can seed a page
/// index: the row of its own source path, else that path with no document id.
pub open spec fn settled_row(rows: Seq<RepoSearchRow>, repo_id: Seq<char>, route_path: Seq<char>) -> (
    Seq<char>,
    Option<Seq<char>>,
) {
    match first_seed_row(rows, 0, repo_id, Some(route_path)) {
        Some(x) => x,
        None => (route_path, None),
    }
}

pub open spec fn result_view(r: Result<String, String>) -> Result<Seq<char>, Seq<char>> {
    match r {
        Ok(s) => Ok(s@),
        Err(e) => Err(e@),
    }
}

impl RouteMaterialization {
    /// Waiting for a repo-search read means an attempt is at hand; each read
    /// passed on the way to a later stage returned at least one row.
    pub open spec fn wf(&self) -> bool {
        &&& self.stage == RouteStage::RepoSearch ==> self.attempt < self.attempts.len()
        &&& (self.stage == RouteStage::PageIndex || self.stage == RouteStage::RetrievalContext
            || self.stage == RouteStage::GraphNeighbors) ==> self.repo_search_rows > 0
        &&& (self.stage == RouteStage::RetrievalContext || self.stage == RouteStage::GraphNeighbors)
            ==> self.page_index_rows > 0
        &&& self.stage == RouteStage::GraphNeighbors ==> self.retrieval_context_rows > 0
    }

    /// The route's own data, fixed from the start.
    pub open spec fn same_route(&self, other: &Self) -> bool {
        &&& self.repo_id@ == other.repo_id@
        &&& opt_view(self.heading_anchor) == opt_view(other.heading_anchor)
        &&& self.route_source_path@ == other.route_source_path@
        &&& strings_view(self.repo_search_columns@) == strings_view(other.repo_search_columns@)
        &&& attempts_view(self.attempts@) == attempts_view(other.attempts@)
    }

    /// Whether the graph read's rows can be added to the rows read before.
    pub open spec fn graph_rows_fit(&self, graph_rows: usize) -> bool {
        self.repo_search_rows + self.page_index_rows + self.retrieval_context_rows + graph_rows
            <= usize::MAX
    }

    fn attempt_read(&self, i: usize) -> (step: RouteStep)
        requires
            i < self.attempts.len(),
        ensures
            reads_attempt(step, self.attempts@[i as int]@),
    {
        RouteStep::Read(
            RouteRead::RepoSearch {
                query: copy_string(&self.attempts[i].query),
                path_prefix: copy_string(&self.attempts[i].path_prefix),
                limit: REPO_SEARCH_LIMIT,
            },
        )
    }

    fn exhausted(&self) -> (m: String)
        ensures
            m@ == exhausted_message(attempts_view(self.attempts@)),
    {
        let mut notes: Vec<Vec<char>> = Vec::new();
        let mut i: usize = 0;
        while i < self.attempts.len()
            invariant
                i <= self.attempts.len(),
                seqs_of(notes@) == attempts_view(self.attempts@).take(i as int).map_values(
                    |a: (Seq<char>, Seq<char>)| attempt_label(a.0, a.1),
                ),
            decreases self.attempts.len() - i,
        {
            let note = chars_of(
                candidate_discovery_attempt_label(
                    self.attempts[i].query.as_str(),
                    self.attempts[i].path_prefix.as_str(),
                ).as_str(),
            );
            let ghost before = seqs_of(notes@);
            notes.push(note);
            assert(seqs_of(notes@) =~= before.push(note@));
            assert(attempts_view(self.attempts@).take(i + 1) =~= attempts_view(self.attempts@).take(
                i as int,
            ).push(self.attempts@[i as int]@));
            i = i + 1;
            assert(seqs_of(notes@) =~= attempts_view(self.attempts@).take(i as int).map_values(
                |a: (Seq<char>, Seq<char>)| attempt_label(a.0, a.1),
            ));
        }
        assert(attempts_view(self.attempts@).take(self.attempts.len() as int) =~= attempts_view(
            self.attempts@,
        ));
        let mut m = lit(
            "SearchStrategyFlow repo search materialization returned zero page-index-ready decoded rows after ",
        );
        append_chars(&mut m, &chars_of(decimal_text(self.attempts.len()).as_str()));
        append_chars(&mut m, &lit(" attempts: "));
        append_chars(&mut m, &join_vecs(&notes, &lit("; ")));
        string_of(&m)
    }

    /// Starts a route: refuses a blank source path; otherwise its
    /// repo-search attempts, and the read of the first.
    pub fn start(
        repo_id: &str,
        source_path: &str,
        heading_anchor: Option<&str>,
        repo_search_columns: Vec<String>,
    ) -> (r: (Self, RouteStep))
        ensures
            r.0.wf(),
            r.0.repo_id@ == repo_id@,
            opt_view(r.0.heading_anchor) == str_opt_view(heading_anchor),
            r.0.route_source_path@ == repo_relative_source_path_spec(repo_id@, source_path@),
            strings_view(r.0.repo_search_columns@) == strings_view(repo_search_columns@),
            attempts_view(r.0.attempts@) == repo_search_attempts_for_route_spec(
                repo_id@,
                source_path@,
                str_opt_view(heading_anchor),
            ),
            is_blank(source_path@) ==> r.0.stage == RouteStage::Done && (r.1 matches RouteStep::Failed(m)
                && m@ == missing_source_path_message()),
            !is_blank(source_path@) && r.0.attempts.len() > 0 ==> r.0.stage == RouteStage::RepoSearch
                && r.0.attempt == 0 && reads_attempt(r.1, r.0.attempts@[0]@),
            !is_blank(source_path@) && r.0.attempts.len() == 0 ==> r.0.stage == RouteStage::Done && (
            r.1 matches RouteStep::Failed(m) && m@ == exhausted_message(attempts_view(r.0.attempts@))),
    {
        let blank = is_blank_vec(&chars_of(source_path));
        let attempts = repo_search_attempts_for_route(repo_id, source_path, heading_anchor);
        let heading: Option<String> = match heading_anchor {
            Some(a) => Some(a.to_owned()),
            None => None,
        };
        let mut m = RouteMaterialization {
            repo_id: repo_id.to_owned(),
            heading_anchor: heading,
            route_source_path: repo_relative_source_path(repo_id, source_path),
            repo_search_columns,
            attempts,
            stage: RouteStage::RepoSearch,
            attempt: 0,
            repo_search_rows: 0,
            page_index_rows: 0,
            retrieval_context_rows: 0,
            repo_search_path: String::new(),
            page_id: String::new(),
            node_id: String::new(),
            graph_node_id: String::new(),
            retrieval_node_id: Err(String::new()),
        };
        if blank {
            m.stage = RouteStage::Done;
            (m, RouteStep::Failed("SearchStrategyFlow retrieval route missing `sourcePath`".to_owned()))
        } else if m.attempts.len() == 0 {
            m.stage = RouteStage::Done;
            let msg = m.exhausted();
            (m, RouteStep::Failed(msg))
        } else {
            let step = m.attempt_read(0);
            (m, step)
        }
    }

    /// Takes the rows of the pending repo-search read. Once some row can
    /// seed a page index, the route settles on its row and asks for the
    /// page-index tree; otherwise it asks for the next attempt, or fails
    /// when none is left.
    pub fn on_repo_search_rows(&mut self, rows: &Vec<RepoSearchRow>) -> (step: RouteStep)
        requires
            old(self).wf(),
            old(self).stage == RouteStage::RepoSearch,
        ensures
            final(self).wf(),
            final(self).same_route(old(self)),
            first_seed_row(rows@, 0, old(self).repo_id@, None) is Some ==> {
                let settled = settled_row(rows@, old(self).repo_id@, old(self).route_source_path@);
                let path = repo_relative_source_path_spec(old(self).repo_id@, settled.0);
                let page = projected_page_id_spec(
                    old(self).repo_id@,
                    normalized_repo_search_doc_id_spec(old(self).repo_id@, path, settled.1),
                    path,
                );
                &&& final(self).stage == RouteStage::PageIndex
                &&& final(self).repo_search_rows == rows.len()
                &&& final(self).repo_search_path@ == path
                &&& final(self).page_id@ == page
                &&& step matches RouteStep::Read(RouteRead::PageIndexTree { page_id })
                &&& page_id@ == page
            },
            first_seed_row(rows@, 0, old(self).repo_id@, None) is None ==> if old(self).attempt + 1
                < old(self).attempts.len() {
                &&& final(self).stage == RouteStage::RepoSearch
                &&& final(self).attempt == old(self).attempt + 1
                &&& reads_attempt(step, old(self).attempts@[old(self).attempt + 1]@)
            } else {
                &&& final(self).stage == RouteStage::Done
                &&& step matches RouteStep::Failed(m)
                &&& m@ == exhausted_message(attempts_view(old(self).attempts@))
            },
    {
        let any = first_page_index_repo_search_row(rows, self.repo_id.as_str(), None);
        if any.is_some() {
            let settled = first_page_index_repo_search_row(
                rows,
                self.repo_id.as_str(),
                Some(self.route_source_path.as_str()),
            );
            let (path, doc_id) = match settled {
                Some(x) => x,
                None => (copy_string(&self.route_source_path), None),
            };
            let path = repo_relative_source_path(self.repo_id.as_str(), path.as_str());
            let doc = match &doc_id {
                Some(d) => normalized_repo_search_doc_id(
                    self.repo_id.as_str(),
                    path.as_str(),
                    Some(d.as_str()),
                ),
                None => normalized_repo_search_doc_id(self.repo_id.as_str(), path.as_str(), None),
            };
            let page = projected_page_id(self.repo_id.as_str(), doc.as_str(), path.as_str());
            let step = RouteStep::Read(RouteRead::PageIndexTree { page_id: copy_string(&page) });
            self.stage = RouteStage::PageIndex;
            self.repo_search_rows = rows.len();
            self.repo_search_path = path;
            self.page_id = page;
            step
        } else if self.attempt + 1 < self.attempts.len() {
            self.attempt = self.attempt + 1;
            self.attempt_read(self.attempt)
        } else {
            self.stage = RouteStage::Done;
            RouteStep::Failed(self.exhausted())
        }
    }

    /// Takes the page-index read: fails when it returned no row; otherwise
    /// resolves the route's node in the tree and asks for its retrieval
    /// context, or fails when the tree has no node id.
    pub fn on_page_index_tree(&mut self, row_count: usize, roots: &Vec<PageIndexNode>) -> (step:
        RouteStep)
        requires
            old(self).wf(),
            old(self).stage == RouteStage::PageIndex,
        ensures
            final(self).wf(),
            final(self).same_route(old(self)),
            final(self).repo_search_rows == old(self).repo_search_rows,
            final(self).repo_search_path@ == old(self).repo_search_path@,
            final(self).page_id@ == old(self).page_id@,
            row_count == 0 ==> final(self).stage == RouteStage::Done && (step matches RouteStep::Failed(m)
                && m@ == empty_page_index_message()),
            row_count > 0 ==> match resolved_node(opt_view(old(self).heading_anchor), roots@) {
                Some(id) => {
                    &&& final(self).stage == RouteStage::RetrievalContext
                    &&& final(self).page_index_rows == row_count
                    &&& final(self).node_id@ == id
                    &&& final(self).graph_node_id@ == graph_node_display_id_spec(
                        old(self).repo_id@,
                        old(self).repo_search_path@,
                    )
                    &&& step matches RouteStep::Read(
                        RouteRead::RetrievalContext { page_id, node_id, related_limit },
                    )
                    &&& page_id@ == old(self).page_id@
                    &&& node_id@ == id
                    &&& related_limit == RELATED_CONTEXT_LIMIT
                },
                None => {
                    &&& final(self).stage == RouteStage::Done
                    &&& step matches RouteStep::Failed(m)
                    &&& m@ == missing_node_message()
                },
            },
    {
        if row_count == 0 {
            self.stage = RouteStage::Done;
            return RouteStep::Failed(
                "SearchStrategyFlow page-index materialization returned zero decoded rows".to_owned(),
            );
        }
        let by_anchor = match &self.heading_anchor {
            Some(a) => find_node_id_by_anchor_or_title(roots, a.as_str()),
            None => None,
        };
        let node = match by_anchor {
            Some(id) => Some(id),
            None => first_node_id(roots),
        };
        match node {
            Some(id) => {
                let graph = graph_node_display_id(
                    self.repo_id.as_str(),
                    self.repo_search_path.as_str(),
                );
                let step = RouteStep::Read(
                    RouteRead::RetrievalContext {
                        page_id: copy_string(&self.page_id),
                        node_id: copy_string(&id),
                        related_limit: RELATED_CONTEXT_LIMIT,
                    },
                );
                self.stage = RouteStage::RetrievalContext;
                self.page_index_rows = row_count;
                self.node_id = id;
                self.graph_node_id = graph;
                step
            },
            None => {
                self.stage = RouteStage::Done;
                RouteStep::Failed("SearchStrategyFlow page-index tree did not expose a node id".to_owned())
            },
        }
    }

    /// Takes the retrieval-context read: fails when it returned no row;
    /// otherwise keeps its rows and its first node id (or the error of
    /// reading it) and asks for the graph neighbors.
    pub fn on_retrieval_context(&mut self, row_count: usize, first_node_id: Result<String, String>) -> (step:
        RouteStep)
        requires
            old(self).wf(),
            old(self).stage == RouteStage::RetrievalContext,
        ensures
            final(self).wf(),
            final(self).same_route(old(self)),
            final(self).repo_search_rows == old(self).repo_search_rows,
            final(self).page_index_rows == old(self).page_index_rows,
            final(self).repo_search_path@ == old(self).repo_search_path@,
            final(self).page_id@ == old(self).page_id@,
            final(self).node_id@ == old(self).node_id@,
            final(self).graph_node_id@ == old(self).graph_node_id@,
            row_count == 0 ==> final(self).stage == RouteStage::Done && (step matches RouteStep::Failed(m)
                && m@ == empty_retrieval_context_message()),
            row_count > 0 ==> {
                &&& final(self).stage == RouteStage::GraphNeighbors
                &&& final(self).retrieval_context_rows == row_count
                &&& result_view(final(self).retrieval_node_id) == result_view(first_node_id)
                &&& step matches RouteStep::Read(RouteRead::GraphNeighbors { node_id, direction, hops, limit })
                    && node_id@ == old(self).graph_node_id@ && direction@ == "both"@ && hops
                    == GRAPH_HOPS && limit == GRAPH_LIMIT
            },
    {
        if row_count == 0 {
            self.stage = RouteStage::Done;
            return RouteStep::Failed(
                "SearchStrategyFlow retrieval-context materialization returned zero decoded rows".to_owned(),
            );
        }
        self.stage = RouteStage::GraphNeighbors;
        self.retrieval_context_rows = row_count;
        self.retrieval_node_id = first_node_id;
        RouteStep::Read(
            RouteRead::GraphNeighbors {
                node_id: copy_string(&self.graph_node_id),
                direction: "both".to_owned(),
                hops: GRAPH_HOPS,
                limit: GRAPH_LIMIT,
            },
        )
    }

    /// Whether the graph read's rows can be added to the rows read before.
    pub fn can_take_graph_rows(&self, graph_rows: usize) -> (b: bool)
        ensures
            b == self.graph_rows_fit(graph_rows),
    {
        let a = self.repo_search_rows as u128 + self.page_index_rows as u128
            + self.retrieval_context_rows as u128 + graph_rows as u128;
        a <= usize::MAX as u128
    }

    /// Takes the graph-neighbor read and ends the route: fails when it
    /// returned no row; otherwise the receipt of the four reads, or the
    /// error of the retrieval-context node id.
    pub fn on_graph_neighbors(&mut self, row_count: usize) -> (step: RouteStep)
        requires
            old(self).wf(),
            old(self).stage == RouteStage::GraphNeighbors,
            old(self).graph_rows_fit(row_count),
        ensures
            final(self).wf(),
            final(self).same_route(old(self)),
            final(self).stage == RouteStage::Done,
            row_count == 0 ==> (step matches RouteStep::Failed(m) && m@ == empty_graph_neighbors_message()),
            row_count > 0 ==> match old(self).retrieval_node_id {
                Ok(ctx) => step matches RouteStep::Finished(rc) && {
                    &&& old(self).repo_search_rows > 0
                    &&& old(self).page_index_rows > 0
                    &&& old(self).retrieval_context_rows > 0
                    &&& rc.materialized_rows == old(self).repo_search_rows + old(self).page_index_rows
                        + old(self).retrieval_context_rows + row_count
                    &&& rc.resolved_page_id@ == old(self).page_id@
                    &&& rc.resolved_node_id@ == old(self).node_id@
                    &&& rc.resolved_graph_node_id@ == old(self).graph_node_id@
                    &&& row_receipts_view(rc.route_receipts@) == route_receipts_spec(
                        old(self).repo_search_rows,
                        old(self).page_index_rows,
                        old(self).retrieval_context_rows,
                        row_count,
                    )
                    &&& decoded_receipts_view(rc.decoded_payload_receipts@)
                        == decoded_payload_receipts_spec(
                        old(self).repo_search_path@,
                        strings_view(old(self).repo_search_columns@),
                        old(self).repo_search_rows,
                        old(self).page_index_rows,
                        old(self).retrieval_context_rows,
                        ctx@,
                        row_count,
                        old(self).node_id@,
                        old(self).graph_node_id@,
                    )
                },
                Err(e) => step matches RouteStep::Failed(m) && m@ == e@,
            },
    {
        self.stage = RouteStage::Done;
        if row_count == 0 {
            return RouteStep::Failed(
                "SearchStrategyFlow graph-neighbor materialization returned zero decoded rows".to_owned(),
            );
        }
        let decoded = decoded_payload_receipts(
            self.repo_search_path.as_str(),
            &self.repo_search_columns,
            self.repo_search_rows,
            self.page_index_rows,
            self.retrieval_context_rows,
            &self.retrieval_node_id,
            row_count,
            self.node_id.as_str(),
            self.graph_node_id.as_str(),
        );
        match decoded {
            Ok(v) => RouteStep::Finished(
                SearchStrategyFlowRouteReceipt {
                    materialized_rows: self.repo_search_rows + self.page_index_rows
                        + self.retrieval_context_rows + row_count,
                    resolved_page_id: copy_string(&self.page_id),
                    resolved_node_id: copy_string(&self.node_id),
                    resolved_graph_node_id: copy_string(&self.graph_node_id),
                    route_receipts: route_receipts(
                        self.repo_search_rows,
                        self.page_index_rows,
                        self.retrieval_context_rows,
                        row_count,
                    ),
                    decoded_payload_receipts: v,
                },
            ),
            Err(e) => RouteStep::Failed(e),
        }
    }
}

} // verus!
