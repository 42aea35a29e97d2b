//! Page, node and document identifiers for Flight-materialized `SearchStrategyFlow` routes.
use vstd::prelude::*;
use crate::text::{
    append_chars, chars_of, ends_with, occurs_at, seqs_of, push_unique, push_unique_vec, strings_of, concat2, contains, contains_vec, is_blank, is_blank_vec, lit, lower_seq,
    rposition, rposition_exec, strip_both, strip_end, strip_hit, strip_start, StripSet, starts_with, starts_with_vec, string_of, sub_vec,
    to_ascii_lowercase_vec, trim, trim_slashes, trim_slashes_vec, trim_vec, vec_eq,
};

verus! {

/// Start of the last `/`-separated segment of `p`.
pub open spec fn segment_start(p: Seq<char>) -> int
    decreases p.len(),
{
    if p.len() == 0 {
        0
    } else if p.last() == '/' {
        p.len() as int
    } else {
        segment_start(p.drop_last())
    }
}

/// The last path segment starts right after the last `/`, or at the start.
pub proof fn lemma_segment_start(p: Seq<char>)
    ensures
        0 <= segment_start(p) <= p.len(),
        segment_start(p) > 0 ==> p[segment_start(p) - 1] == '/',
        forall|j: int| segment_start(p) <= j < p.len() ==> p[j] != '/',
    decreases p.len(),
{
    if p.len() > 0 && p.last() != '/' {
        lemma_segment_start(p.drop_last());
        assert forall|j: int| segment_start(p) <= j < p.len() implies p[j] != '/' by {
            if j < p.len() - 1 {
                assert(p[j] == p.drop_last()[j]);
            }
        }
    }
}

/// `Path::file_name` on a `/`-separated path: the last component unless it is
/// the root, `.` at the start, or `..`; inner `.` components and repeated or
/// trailing separators do not count.
pub open spec fn path_file_name(p: Seq<char>) -> Option<Seq<char>>
    decreases p.len(),
{
    if p.len() == 0 {
        None
    } else if p.last() == '/' {
        path_file_name(p.drop_last())
    } else {
        let k = segment_start(p);
        let seg = p.subrange(k, p.len() as int);
        if seg == seq!['.'] {
            if 0 < k <= p.len() - 1 {
                path_file_name(p.subrange(0, k))
            } else {
                None
            }
        } else if seg == seq!['.', '.'] {
            None
        } else {
            Some(seg)
        }
    }
}

/// The extension of a file name, as `Path::extension` takes it: the text after
/// the last `.`, when that `.` is not the first character.
pub open spec fn name_extension(f: Seq<char>) -> Option<Seq<char>> {
    let i = rposition(f, '.');
    if i > 0 {
        Some(f.subrange(i + 1, f.len() as int))
    } else {
        None
    }
}

pub open spec fn path_extension(p: Seq<char>) -> Option<Seq<char>> {
    match path_file_name(p) {
        Some(f) => name_extension(f),
        None => None,
    }
}

/// Whether the trimmed path has an `md` or `markdown` extension, in any ASCII case.
pub open spec fn has_markdown_extension(path: Seq<char>) -> bool {
    match path_extension(trim(path)) {
        Some(e) => lower_seq(e) == seq!['m', 'd'] || lower_seq(e) == seq![
            'm',
            'a',
            'r',
            'k',
            'd',
            'o',
            'w',
            'n',
        ],
        None => false,
    }
}

fn segment_start_exec(v: &[char], end: usize) -> (k: usize)
    requires
        end <= v.len(),
    ensures
        k <= end,
        k as int == segment_start(v@.subrange(0, end as int)),
{
    let mut j: usize = end;
    while j > 0 && v[j - 1] != '/'
        invariant
            j <= end <= v.len(),
            segment_start(v@.subrange(0, end as int)) == segment_start(v@.subrange(0, j as int)),
        decreases j,
    {
        assert(v@.subrange(0, j as int).drop_last() =~= v@.subrange(0, j - 1));
        j = j - 1;
    }
    j
}

fn file_name_range(v: &[char], end: usize) -> (r: Option<(usize, usize)>)
    requires
        end <= v.len(),
    ensures
        match r {
            Some((a, b)) => a <= b <= end && path_file_name(v@.subrange(0, end as int)) == Some(
                v@.subrange(a as int, b as int),
            ),
            None => path_file_name(v@.subrange(0, end as int)) is None,
        },
    decreases end,
{
    let ghost p = v@.subrange(0, end as int);
    if end == 0 {
        return None;
    }
    if v[end - 1] == '/' {
        assert(p.drop_last() =~= v@.subrange(0, end - 1));
        return file_name_range(v, end - 1);
    }
    let k = segment_start_exec(v, end);
    assert(p.subrange(k as int, p.len() as int) =~= v@.subrange(k as int, end as int));
    if end - k == 1 && v[k] == '.' {
        assert(v@.subrange(k as int, end as int) =~= seq!['.']);
        if k > 0 {
            assert(p.subrange(0, k as int) =~= v@.subrange(0, k as int));
            return file_name_range(v, k);
        }
        return None;
    }
    if end - k == 2 && v[k] == '.' && v[k + 1] == '.' {
        assert(v@.subrange(k as int, end as int) =~= seq!['.', '.']);
        return None;
    }
    if end - k == 1 {
        assert(v@.subrange(k as int, end as int) != seq!['.']) by {
            assert(v@.subrange(k as int, end as int)[0] != '.');
        }
    }
    if end - k == 2 {
        assert(v@.subrange(k as int, end as int) != seq!['.', '.']) by {
            if v@[k as int] != '.' {
                assert(v@.subrange(k as int, end as int)[0] != '.');
            } else {
                assert(v@.subrange(k as int, end as int)[1] != '.');
            }
        }
    }
    Some((k, end))
}

/// The file name of the path `v`, as `Path::file_name` gives it.
pub fn path_file_name_vec(v: &[char]) -> (r: Option<Vec<char>>)
    ensures
        match r {
            Some(f) => path_file_name(v@) == Some(f@),
            None => path_file_name(v@) is None,
        },
{
    assert(v@.subrange(0, v.len() as int) =~= v@);
    match file_name_range(v, v.len()) {
        None => None,
        Some((a, b)) => Some(sub_vec(v, a, b)),
    }
}

/// The extension of the path `v`, when it has one.
pub fn path_extension_vec(v: &[char]) -> (r: Option<Vec<char>>)
    ensures
        match r {
            Some(e) => path_extension(v@) == Some(e@),
            None => path_extension(v@) is None,
        },
{
    assert(v@.subrange(0, v.len() as int) =~= v@);
    match file_name_range(v, v.len()) {
        None => None,
        Some((a, b)) => {
            let f = sub_vec(v, a, b);
            match rposition_exec(&f, f.len(), '.') {
                None => {
                    assert(f@.subrange(0, f.len() as int) =~= f@);
                    None
                },
                Some(i) => {
                    assert(f@.subrange(0, f.len() as int) =~= f@);
                    if i == 0 {
                        None
                    } else {
                        Some(sub_vec(&f, i + 1, f.len()))
                    }
                },
            }
        },
    }
}

pub fn has_markdown_extension_vec(path: &[char]) -> (b: bool)
    ensures
        b == has_markdown_extension(path@),
{
    let t = trim_vec(path);
    match path_extension_vec(&t) {
        None => false,
        Some(e) => {
            let low = to_ascii_lowercase_vec(&e);
            let md: Vec<char> = vec!['m', 'd'];
            let markdown: Vec<char> = vec!['m', 'a', 'r', 'k', 'd', 'o', 'w', 'n'];
            let r = vec_eq(&low, &md) || vec_eq(&low, &markdown);
            assert(md@ =~= seq!['m', 'd']);
            assert(markdown@ =~= seq!['m', 'a', 'r', 'k', 'd', 'o', 'w', 'n']);
            r
        },
    }
}

/// `has_markdown_extension` on text.
pub fn has_markdown_extension_str(path: &str) -> (b: bool)
    ensures
        b == has_markdown_extension(path@),
{
    let v = chars_of(path);
    has_markdown_extension_vec(&v)
}


/// `explanation` for Markdown sources, `reference` for every other source.
pub open spec fn projection_kind_token(source_path: Seq<char>) -> Seq<char> {
    if has_markdown_extension(source_path) {
        "explanation"@
    } else {
        "reference"@
    }
}

pub fn projection_kind_token_for_source_path(source_path: &str) -> (r: &'static str)
    ensures
        r@ == projection_kind_token(source_path@),
{
    if has_markdown_extension_str(source_path) {
        "explanation"
    } else {
        "reference"
    }
}

/// `repo:{repo}:doc:{tail}`.
pub open spec fn repo_doc_id(repo_id: Seq<char>, tail: Seq<char>) -> Seq<char> {
    "repo:"@ + repo_id + ":doc:"@ + tail
}

fn repo_doc_id_vec(repo_id: &[char], tail: &[char]) -> (r: Vec<char>)
    ensures
        r@ == repo_doc_id(repo_id@, tail@),
{
    let mut r = lit("repo:");
    append_chars(&mut r, repo_id);
    append_chars(&mut r, &lit(":doc:"));
    append_chars(&mut r, tail);
    r
}

/// The projected page id that a repo-search hit resolves to.
pub open spec fn projected_page_id_spec(
    repo_id: Seq<char>,
    doc_id: Seq<char>,
    source_path: Seq<char>,
) -> Seq<char> {
    if contains(doc_id, ":projection:"@) {
        doc_id
    } else {
        let effective = if is_blank(doc_id) {
            repo_doc_id(repo_id, source_path)
        } else if starts_with(doc_id, "repo:"@) {
            doc_id
        } else if !is_blank(source_path) {
            repo_doc_id(repo_id, source_path)
        } else {
            repo_doc_id(repo_id, doc_id)
        };
        "repo:"@ + repo_id + ":projection:"@ + projection_kind_token(source_path) + ":doc:"@
            + effective
    }
}

pub fn projected_page_id(repo_id: &str, doc_id: &str, source_path: &str) -> (r: String)
    ensures
        r@ == projected_page_id_spec(repo_id@, doc_id@, source_path@),
{
    let repo = chars_of(repo_id);
    let doc = chars_of(doc_id);
    let source = chars_of(source_path);
    if contains_vec(&doc, &lit(":projection:")) {
        return doc_id.to_owned();
    }
    let kind = projection_kind_token_for_source_path(source_path);
    let effective = if is_blank_vec(&doc) {
        repo_doc_id_vec(&repo, &source)
    } else if starts_with_vec(&doc, &lit("repo:")) {
        doc
    } else if !is_blank_vec(&source) {
        repo_doc_id_vec(&repo, &source)
    } else {
        repo_doc_id_vec(&repo, &doc)
    };
    let mut r = lit("repo:");
    append_chars(&mut r, &repo);
    append_chars(&mut r, &lit(":projection:"));
    append_chars(&mut r, &lit(kind));
    append_chars(&mut r, &lit(":doc:"));
    append_chars(&mut r, &effective);
    string_of(&r)
}

/// A projected page id always holds the `:projection:` marker, and it is a
/// fixed point: projecting it again, as the document id of any repo and
/// source path, gives it back unchanged.
pub proof fn lemma_projected_page_id_fixed_point(
    repo_id: Seq<char>,
    doc_id: Seq<char>,
    source_path: Seq<char>,
    other_repo_id: Seq<char>,
    other_source_path: Seq<char>,
)
    ensures
        contains(projected_page_id_spec(repo_id, doc_id, source_path), ":projection:"@),
        projected_page_id_spec(
            other_repo_id,
            projected_page_id_spec(repo_id, doc_id, source_path),
            other_source_path,
        ) == projected_page_id_spec(repo_id, doc_id, source_path),
{
    let p = projected_page_id_spec(repo_id, doc_id, source_path);
    if !contains(doc_id, ":projection:"@) {
        let head = "repo:"@ + repo_id;
        let marker = ":projection:"@;
        let tail = projection_kind_token(source_path) + ":doc:"@ + if is_blank(doc_id) {
            repo_doc_id(repo_id, source_path)
        } else if starts_with(doc_id, "repo:"@) {
            doc_id
        } else if !is_blank(source_path) {
            repo_doc_id(repo_id, source_path)
        } else {
            repo_doc_id(repo_id, doc_id)
        };
        assert(p =~= head + marker + tail);
        assert((head + marker + tail).subrange(head.len() as int, (head.len() + marker.len()) as int) =~= marker);
        assert(occurs_at(p, marker, head.len() as int));
    }
}

/// When a source path is given, it names the projected document: a
/// document id that is not a `repo:` id (blank or not) gives the page id
/// `repo:{repo}:projection:{kind}:doc:repo:{repo}:doc:{path}`,
/// where the kind is `explanation` for a Markdown path and `reference`
/// otherwise.
pub proof fn lemma_projected_page_id_from_source_path(repo_id: Seq<char>, doc_id: Seq<char>, source_path: Seq<char>)
    requires
        !is_blank(source_path),
        !contains(doc_id, ":projection:"@),
        !starts_with(doc_id, "repo:"@),
    ensures
        projected_page_id_spec(repo_id, doc_id, source_path) == "repo:"@ + repo_id + ":projection:"@ + (
        if has_markdown_extension(source_path) {
            "explanation"@
        } else {
            "reference"@
        }) + ":doc:"@ + "repo:"@ + repo_id + ":doc:"@ + source_path,
{
}

/// Stripping leaves a text alone whose two ends are not stripped characters.
proof fn lemma_strip_both_keeps(s: Seq<char>, p: StripSet)
    requires
        s.len() > 0,
        !strip_hit(p, s[0]),
        !strip_hit(p, s.last()),
    ensures
        strip_both(s, p) == s,
{
    assert(strip_start(s, p) == s);
    assert(strip_end(s, p) == s);
}

/// The graph node id of a source path: the path scoped under the repo id,
/// unless it already is.
pub open spec fn graph_node_display_id_spec(repo_id: Seq<char>, source_path: Seq<char>) -> Seq<
    char,
> {
    let normalized = trim_slashes(source_path);
    if starts_with(normalized, repo_id + seq!['/']) {
        normalized
    } else if normalized.len() == 0 {
        repo_id
    } else {
        repo_id + seq!['/'] + normalized
    }
}

fn graph_node_display_id_vec(repo: &[char], source: &[char]) -> (r: Vec<char>)
    ensures
        r@ == graph_node_display_id_spec(repo@, source@),
{
    let normalized = trim_slashes_vec(source);
    let slash: Vec<char> = vec!['/'];
    let prefix = concat2(repo, &slash);
    assert(prefix@ =~= repo@ + seq!['/']);
    if starts_with_vec(&normalized, &prefix) {
        normalized
    } else if normalized.len() == 0 {
        sub_vec(repo, 0, repo.len())
    } else {
        let r = concat2(&prefix, &normalized);
        r
    }
}

pub fn graph_node_display_id(repo_id: &str, source_path: &str) -> (r: String)
    ensures
        r@ == graph_node_display_id_spec(repo_id@, source_path@),
{
    let repo = chars_of(repo_id);
    let source = chars_of(source_path);
    let r = graph_node_display_id_vec(&repo, &source);
    proof {
        assert(repo@.subrange(0, repo.len() as int) =~= repo@);
    }
    string_of(&r)
}

/// A text whose two ends are neither white space nor `/` is its own
/// trimmed form.
proof fn lemma_clean_ends_trim_to_self(s: Seq<char>)
    requires
        s.len() > 0,
        !crate::text::is_white(s[0]),
        !crate::text::is_white(s.last()),
        s[0] != '/',
        s.last() != '/',
    ensures
        trim_slashes(s) == s,
{
    lemma_strip_both_keeps(s, StripSet::Whitespace);
    lemma_strip_both_keeps(s, StripSet::Exactly('/'));
}

/// The two ends of a non-empty trimmed text are not white space.
proof fn lemma_trimmed_ends(s: Seq<char>)
    requires
        s.len() > 0,
        trim(s) == s,
    ensures
        !crate::text::is_white(s[0]),
        !crate::text::is_white(s.last()),
{
    crate::text::lemma_strip_both_subrange(s, StripSet::Whitespace);
}

/// `s` does not start with `/` exactly when its first character is not `/`;
/// likewise at the end.
proof fn lemma_slash_ends(s: Seq<char>)
    requires
        s.len() > 0,
    ensures
        starts_with(s, seq!['/']) <==> s[0] == '/',
        ends_with(s, seq!['/']) <==> s.last() == '/',
{
    let slash: Seq<char> = seq!['/'];
    assert(s.subrange(0, 1) =~= seq![s[0]]);
    assert(s.subrange(s.len() - 1, s.len() as int) =~= seq![s.last()]);
    if starts_with(s, slash) {
        assert(s.subrange(0, 1)[0] == slash[0]);
    }
    if s[0] == '/' {
        assert(s.subrange(0, 1) =~= slash);
    }
    if ends_with(s, slash) {
        assert(s.subrange(s.len() - 1, s.len() as int)[0] == slash[0]);
    }
    if s.last() == '/' {
        assert(s.subrange(s.len() - 1, s.len() as int) =~= slash);
    }
}

/// A `/` before a clean path trims away to that path.
proof fn lemma_leading_slash_trims(s: Seq<char>)
    requires
        s.len() > 0,
        !crate::text::is_white(s[0]),
        !crate::text::is_white(s.last()),
        s[0] != '/',
        s.last() != '/',
    ensures
        trim_slashes(seq!['/'] + s) == s,
{
    let g = seq!['/'] + s;
    assert(g[0] == '/');
    assert(g.last() == s.last());
    lemma_strip_both_keeps(g, StripSet::Whitespace);
    assert(g.drop_first() =~= s);
    assert(strip_start(s, StripSet::Exactly('/')) == s);
    assert(strip_start(g, StripSet::Exactly('/')) == s);
    assert(strip_end(s, StripSet::Exactly('/')) == s);
}

/// A clean repo id, a `/` and a clean path form a clean id that starts with
/// the repo's prefix.
proof fn lemma_scoped_path_is_clean(repo_id: Seq<char>, s: Seq<char>)
    requires
        repo_id.len() > 0,
        !crate::text::is_white(repo_id[0]),
        repo_id[0] != '/',
        s.len() > 0,
        !crate::text::is_white(s.last()),
        s.last() != '/',
    ensures
        trim_slashes(repo_id + seq!['/'] + s) == repo_id + seq!['/'] + s,
        starts_with(repo_id + seq!['/'] + s, repo_id + seq!['/']),
{
    let prefix = repo_id + seq!['/'];
    let g = prefix + s;
    assert(g[0] == repo_id[0]);
    assert(g.last() == s.last());
    lemma_clean_ends_trim_to_self(g);
    assert(g.subrange(0, prefix.len() as int) =~= prefix);
}

/// The graph node id is idempotent: a display id made from a trimmed,
/// non-empty source path without a leading or trailing `/`, under a trimmed
/// repo id that does not start with `/`, is its own display id.
pub proof fn lemma_graph_node_display_id_idempotent(repo_id: Seq<char>, source_path: Seq<char>)
    requires
        trim(repo_id) == repo_id,
        !starts_with(repo_id, seq!['/']),
        source_path.len() > 0,
        trim(source_path) == source_path,
        !starts_with(source_path, seq!['/']),
        !ends_with(source_path, seq!['/']),
    ensures
        graph_node_display_id_spec(repo_id, graph_node_display_id_spec(repo_id, source_path))
            == graph_node_display_id_spec(repo_id, source_path),
{
    let s = source_path;
    let prefix = repo_id + seq!['/'];
    lemma_trimmed_ends(s);
    lemma_slash_ends(s);
    lemma_clean_ends_trim_to_self(s);
    if !starts_with(s, prefix) {
        let g = prefix + s;
        assert(graph_node_display_id_spec(repo_id, s) == g);
        if repo_id.len() > 0 {
            lemma_trimmed_ends(repo_id);
            lemma_slash_ends(repo_id);
            lemma_scoped_path_is_clean(repo_id, s);
        } else {
            assert(prefix =~= seq!['/']);
            lemma_leading_slash_trims(s);
        }
    }
}

/// The source path relative to the repo: the trimmed path without a leading
/// `{repo}/` display prefix.
pub open spec fn repo_relative_source_path_spec(repo_id: Seq<char>, source_path: Seq<char>) -> Seq<
    char,
> {
    let normalized = trim_slashes(source_path);
    let prefix = trim_slashes(repo_id) + seq!['/'];
    if starts_with(normalized, prefix) {
        normalized.subrange(prefix.len() as int, normalized.len() as int)
    } else {
        normalized
    }
}

pub fn repo_relative_source_path_vec(repo: &[char], source: &[char]) -> (r: Vec<char>)
    ensures
        r@ == repo_relative_source_path_spec(repo@, source@),
{
    let normalized = trim_slashes_vec(source);
    let slash: Vec<char> = vec!['/'];
    let prefix = concat2(&trim_slashes_vec(repo), &slash);
    assert(slash@ =~= seq!['/']);
    if starts_with_vec(&normalized, &prefix) {
        sub_vec(&normalized, prefix.len(), normalized.len())
    } else {
        normalized
    }
}

pub fn repo_relative_source_path(repo_id: &str, source_path: &str) -> (r: String)
    ensures
        r@ == repo_relative_source_path_spec(repo_id@, source_path@),
{
    let r = repo_relative_source_path_vec(&chars_of(repo_id), &chars_of(source_path));
    string_of(&r)
}

/// The canonical repo-search document id.
pub open spec fn normalized_repo_search_doc_id_spec(
    repo_id: Seq<char>,
    repo_relative_path: Seq<char>,
    doc_id: Option<Seq<char>>,
) -> Seq<char> {
    let repo = trim_slashes(repo_id);
    let path = trim_slashes(repo_relative_path);
    let canonical = repo_doc_id(repo, path);
    match doc_id {
        Some(d) if trim(d).len() > 0 => {
            let doc = trim(d);
            let display_prefix = repo_doc_id(repo, repo + seq!['/']);
            if starts_with(doc, display_prefix) {
                repo_doc_id(repo, doc.subrange(display_prefix.len() as int, doc.len() as int))
            } else if starts_with(doc, "repo:"@) {
                doc
            } else {
                canonical
            }
        },
        _ => canonical,
    }
}

pub fn normalized_repo_search_doc_id(
    repo_id: &str,
    repo_relative_path: &str,
    doc_id: Option<&str>,
) -> (r: String)
    ensures
        r@ == normalized_repo_search_doc_id_spec(
            repo_id@,
            repo_relative_path@,
            match doc_id {
                Some(d) => Some(d@),
                None => None,
            },
        ),
{
    let repo = trim_slashes_vec(&chars_of(repo_id));
    let path = trim_slashes_vec(&chars_of(repo_relative_path));
    let canonical = repo_doc_id_vec(&repo, &path);
    let doc = match doc_id {
        Some(d) => trim_vec(&chars_of(d)),
        None => return string_of(&canonical),
    };
    if doc.len() == 0 {
        return string_of(&canonical);
    }
    let slash: Vec<char> = vec!['/'];
    let display_prefix = repo_doc_id_vec(&repo, &concat2(&repo, &slash));
    assert(slash@ =~= seq!['/']);
    if starts_with_vec(&doc, &display_prefix) {
        let rest = sub_vec(&doc, display_prefix.len(), doc.len());
        string_of(&repo_doc_id_vec(&repo, &rest))
    } else if starts_with_vec(&doc, &lit("repo:")) {
        string_of(&doc)
    } else {
        string_of(&canonical)
    }
}

/// What a repo-search hit's document id becomes. With no document id, a
/// blank one, or one that is not a `repo:` id, it is the canonical id
/// `repo:{repo}:doc:{path}` of the trimmed repo and repo-relative path,
/// whatever the document id says. A `repo:` id in the display form
/// `repo:{repo}:doc:{repo}/{rest}` loses the repo scope of its path; any
/// other `repo:` id is kept as it is, trimmed.
pub proof fn lemma_normalized_repo_search_doc_id(repo_id: Seq<char>, repo_relative_path: Seq<char>, doc_id: Seq<char>)
    ensures
        ({
            let repo = trim_slashes(repo_id);
            let canonical = "repo:"@ + repo + ":doc:"@ + trim_slashes(repo_relative_path);
            let doc = trim(doc_id);
            let display = "repo:"@ + repo + ":doc:"@ + repo + "/"@;
            &&& normalized_repo_search_doc_id_spec(repo_id, repo_relative_path, None) == canonical
            &&& doc.len() == 0 ==> normalized_repo_search_doc_id_spec(repo_id, repo_relative_path, Some(doc_id))
                == canonical
            &&& doc.len() > 0 && !starts_with(doc, "repo:"@) ==> normalized_repo_search_doc_id_spec(
                repo_id,
                repo_relative_path,
                Some(doc_id),
            ) == canonical
            &&& doc.len() > 0 && starts_with(doc, display) ==> normalized_repo_search_doc_id_spec(
                repo_id,
                repo_relative_path,
                Some(doc_id),
            ) == "repo:"@ + repo + ":doc:"@ + doc.subrange(display.len() as int, doc.len() as int)
            &&& doc.len() > 0 && starts_with(doc, "repo:"@) && !starts_with(doc, display)
                ==> normalized_repo_search_doc_id_spec(repo_id, repo_relative_path, Some(doc_id)) == doc
        }),
{
    let repo = trim_slashes(repo_id);
    let doc = trim(doc_id);
    let display = "repo:"@ + repo + ":doc:"@ + repo + "/"@;
    reveal_strlit("/");
    assert(repo_doc_id(repo, repo + seq!['/']) =~= display);
    if starts_with(doc, display) {
        let k = "repo:"@.len() as int;
        assert(display.subrange(0, k) =~= "repo:"@);
        assert(doc.subrange(0, k) =~= doc.subrange(0, display.len() as int).subrange(0, k));
    }
}

/// `{prefix}:{value}`, unless `value` already carries that prefix.
pub open spec fn prefixed_evidence_anchor_spec(prefix: Seq<char>, value: Seq<char>) -> Seq<char> {
    let p = prefix + seq![':'];
    if starts_with(value, p) {
        value
    } else {
        p + value
    }
}

pub fn prefixed_evidence_anchor(prefix: &str, value: &str) -> (r: String)
    ensures
        r@ == prefixed_evidence_anchor_spec(prefix@, value@),
{
    let colon: Vec<char> = vec![':'];
    let p = concat2(&chars_of(prefix), &colon);
    assert(colon@ =~= seq![':']);
    let v = chars_of(value);
    if starts_with_vec(&v, &p) {
        value.to_owned()
    } else {
        string_of(&concat2(&p, &v))
    }
}

/// Repo-search rows whose path is a Markdown document can seed a page index.
pub fn is_page_index_candidate_path(path: &str) -> (b: bool)
    ensures
        b == has_markdown_extension(path@),
{
    has_markdown_extension_str(path)
}


/// Markdown stand-ins for a non-Markdown source: `{path}.md`, then `{stem}.md`.
pub open spec fn markdown_surrogate_source_paths_spec(source_path: Seq<char>) -> Seq<Seq<char>> {
    let normalized = trim_slashes(source_path);
    if normalized.len() == 0 || has_markdown_extension(normalized) {
        Seq::empty()
    } else {
        let first = seq![normalized + ".md"@];
        let dot = rposition(normalized, '.');
        if dot >= 0 {
            push_unique(first, normalized.subrange(0, dot) + ".md"@)
        } else {
            first
        }
    }
}

fn markdown_surrogate_source_paths_vec(source: &[char]) -> (r: Vec<Vec<char>>)
    ensures
        seqs_of(r@) == markdown_surrogate_source_paths_spec(source@),
{
    let normalized = trim_slashes_vec(source);
    let mut out: Vec<Vec<char>> = Vec::new();
    if normalized.len() == 0 || has_markdown_extension_vec(&normalized) {
        assert(seqs_of(out@) =~= Seq::<Seq<char>>::empty());
        return out;
    }
    let md = lit(".md");
    out.push(concat2(&normalized, &md));
    assert(seqs_of(out@) =~= seq![normalized@ + ".md"@]);
    assert(normalized@.subrange(0, normalized.len() as int) =~= normalized@);
    match rposition_exec(&normalized, normalized.len(), '.') {
        Some(dot) => {
            let stem = sub_vec(&normalized, 0, dot);
            push_unique_vec(&mut out, concat2(&stem, &md));
        },
        None => {},
    }
    out
}

pub fn markdown_surrogate_source_paths(source_path: &str) -> (r: Vec<String>)
    ensures
        r.deep_view() == markdown_surrogate_source_paths_spec(source_path@),
{
    strings_of(&markdown_surrogate_source_paths_vec(&chars_of(source_path)))
}

/// Graph node ids to try for a source path: its own, then those of its Markdown stand-ins.
pub open spec fn graph_node_display_id_candidates_spec(
    repo_id: Seq<char>,
    source_path: Seq<char>,
) -> Seq<Seq<char>> {
    let surrogates = markdown_surrogate_source_paths_spec(source_path);
    let first = seq![graph_node_display_id_spec(repo_id, source_path)];
    if surrogates.len() == 0 {
        first
    } else if surrogates.len() == 1 {
        push_unique(first, graph_node_display_id_spec(repo_id, surrogates[0]))
    } else {
        push_unique(
            push_unique(first, graph_node_display_id_spec(repo_id, surrogates[0])),
            graph_node_display_id_spec(repo_id, surrogates[1]),
        )
    }
}

pub fn graph_node_display_id_candidates(repo_id: &str, source_path: &str) -> (r: Vec<String>)
    ensures
        r.deep_view() == graph_node_display_id_candidates_spec(repo_id@, source_path@),
{
    let repo = chars_of(repo_id);
    let source = chars_of(source_path);
    let surrogates = markdown_surrogate_source_paths_vec(&source);
    let mut out: Vec<Vec<char>> = Vec::new();
    out.push(graph_node_display_id_vec(&repo, &source));
    assert(seqs_of(out@) =~= seq![graph_node_display_id_spec(repo@, source@)]);
    proof {
        assert(seqs_of(surrogates@).len() <= 2);
    }
    let mut i: usize = 0;
    while i < surrogates.len()
        invariant
            i <= surrogates.len() <= 2,
            seqs_of(surrogates@) == markdown_surrogate_source_paths_spec(source@),
            i == 0 ==> seqs_of(out@) == seq![graph_node_display_id_spec(repo@, source@)],
            i == 1 ==> seqs_of(out@) == push_unique(
                seq![graph_node_display_id_spec(repo@, source@)],
                graph_node_display_id_spec(repo@, seqs_of(surrogates@)[0]),
            ),
            i == 2 ==> seqs_of(out@) == push_unique(
                push_unique(
                    seq![graph_node_display_id_spec(repo@, source@)],
                    graph_node_display_id_spec(repo@, seqs_of(surrogates@)[0]),
                ),
                graph_node_display_id_spec(repo@, seqs_of(surrogates@)[1]),
            ),
        decreases surrogates.len() - i,
    {
        let id = graph_node_display_id_vec(&repo, &surrogates[i]);
        push_unique_vec(&mut out, id);
        i = i + 1;
    }
    strings_of(&out)
}

} // verus!
