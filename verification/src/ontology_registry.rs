//! The ontology registry that a `SearchStrategyFlow` host reads, built from
//! accepted semantic-scope rows: which registry rows each scope row yields,
//! their order, and the TSV they are written as.
use vstd::prelude::*;
use crate::candidate_inputs::{escape_tsv, escape_tsv_field};
use crate::ordered::{lex_less, lex_lt};
use crate::text::{chars_of, concat2, is_blank, is_blank_vec, join, lit, string_of, vec_eq};

verus! {

/// What the registry reads of one semantic-scope row: its object id, kind
/// and title where they are text, and its relation targets and required
/// validations where their JSON lists hold texts (else none).
#[derive(Clone, Debug)]
pub struct SemanticScopeRow {
    pub object_id: Option<String>,
    pub kind: Option<String>,
    pub title: Option<String>,
    pub relation_targets: Vec<String>,
    pub required_validations: Vec<String>,
}

/// One registry row: its resource family, its API name, and whether it
/// requires evidence.
#[derive(Clone, Debug)]
pub struct OntologyRegistryRow {
    pub resource_family: String,
    pub api_name: String,
    pub requires_evidence: bool,
}

pub type RegistryEntry = (Seq<char>, Seq<char>, bool);

impl View for OntologyRegistryRow {
    type V = RegistryEntry;

    open spec fn view(&self) -> RegistryEntry {
        (self.resource_family@, self.api_name@, self.requires_evidence)
    }
}

pub open spec fn rows_view(s: Seq<OntologyRegistryRow>) -> Seq<RegistryEntry> {
    s.map_values(|r: OntologyRegistryRow| r@)
}

/// The resource family of an object kind: tasks are action types, every
/// other kind (or none) an object type.
pub open spec fn resource_family_spec(kind: Option<Seq<char>>) -> Seq<char> {
    if kind == Some("task"@) {
        "action_type"@
    } else {
        "object_type"@
    }
}

/// The resource family of an object kind.
pub fn resource_family_for_kind(kind: Option<&str>) -> (r: &'static str)
    ensures
        r@ == resource_family_spec(
            match kind {
                Some(k) => Some(k@),
                None => None,
            },
        ),
{
    proof {
        reveal_strlit("task");
    }
    match kind {
        Some(k) => if vec_eq(&chars_of(k), &lit("task")) {
            "action_type"
        } else {
            "object_type"
        },
        None => "object_type",
    }
}

pub open spec fn opt_view(o: Option<String>) -> Option<Seq<char>> {
    match o {
        Some(s) => Some(s@),
        None => None,
    }
}

/// The registry rows one relation target yields: the qualified link and
/// the bare one.
pub open spec fn target_entries(id: Seq<char>, targets: Seq<Seq<char>>) -> Seq<RegistryEntry>
    decreases targets.len(),
{
    if targets.len() == 0 {
        Seq::empty()
    } else {
        let t = targets.last();
        target_entries(id, targets.drop_last()) + seq![
            ("link_type"@, id + "."@ + t, false),
            ("link_type"@, t, false),
        ]
    }
}

/// The registry rows that one semantic-scope row yields, in order: its
/// object as its kind's family; its title as an object type where it is
/// not blank and differs from the id; each relation target as a qualified
/// and a bare link type; each required validation as an action type that
/// requires evidence. A row without a non-blank object id yields none.
pub open spec fn scope_entries(r: SemanticScopeRow) -> Seq<RegistryEntry> {
    match r.object_id {
        Some(id) => if is_blank(id@) {
            Seq::empty()
        } else {
            seq![(resource_family_spec(opt_view(r.kind)), id@, false)] + (match r.title {
                Some(t) => if !is_blank(t@) && t@ != id@ {
                    seq![("object_type"@, t@, false)]
                } else {
                    Seq::empty()
                },
                None => Seq::empty(),
            }) + target_entries(id@, r.relation_targets.deep_view()) + r.required_validations.deep_view().map_values(
                |v: Seq<char>| ("action_type"@, v, true),
            )
        },
        None => Seq::empty(),
    }
}

/// The registry rows of all scope rows, in order, repeats included.
pub open spec fn all_scope_entries(rows: Seq<SemanticScopeRow>) -> Seq<RegistryEntry>
    decreases rows.len(),
{
    if rows.len() == 0 {
        Seq::empty()
    } else {
        all_scope_entries(rows.drop_last()) + scope_entries(rows.last())
    }
}

/// The order of registry rows: by family, then API name, then rows that do
/// not require evidence first.
pub open spec fn entry_lt(a: RegistryEntry, b: RegistryEntry) -> bool {
    if a.0 != b.0 {
        lex_lt(a.0, b.0)
    } else if a.1 != b.1 {
        lex_lt(a.1, b.1)
    } else {
        !a.2 && b.2
    }
}

proof fn lemma_lex(a: Seq<char>, b: Seq<char>, c: Seq<char>)
    ensures
        a != b ==> lex_lt(a, b) || lex_lt(b, a),
        !(lex_lt(a, b) && lex_lt(b, a)),
        lex_lt(a, b) && lex_lt(b, c) ==> lex_lt(a, c),
        !lex_lt(a, a),
{
    crate::ordered::lemma_lex_total(a, b);
    crate::ordered::lemma_lex_irreflexive(a);
    if lex_lt(a, b) && lex_lt(b, a) {
        crate::ordered::lemma_lex_transitive(a, b, a);
    }
    if lex_lt(a, b) && lex_lt(b, c) {
        crate::ordered::lemma_lex_transitive(a, b, c);
    }
}

/// The order of registry rows is a strict total order.
pub proof fn lemma_entry_order(a: RegistryEntry, b: RegistryEntry, c: RegistryEntry)
    ensures
        a != b ==> entry_lt(a, b) || entry_lt(b, a),
        !entry_lt(a, a),
        entry_lt(a, b) && entry_lt(b, c) ==> entry_lt(a, c),
{
    lemma_lex(a.0, b.0, c.0);
    lemma_lex(b.0, a.0, c.0);
    lemma_lex(a.0, c.0, b.0);
    lemma_lex(a.1, b.1, c.1);
    lemma_lex(b.1, a.1, c.1);
    lemma_lex(a.1, c.1, b.1);
}

/// Every row of the list comes before every later one.
pub open spec fn entries_sorted(s: Seq<RegistryEntry>) -> bool {
    forall|i: int, j: int| 0 <= i < j < s.len() ==> entry_lt(#[trigger] s[i], #[trigger] s[j])
}

fn entry_less(a: &OntologyRegistryRow, b: &OntologyRegistryRow) -> (r: bool)
    ensures
        r == entry_lt(a@, b@),
{
    let af = chars_of(a.resource_family.as_str());
    let bf = chars_of(b.resource_family.as_str());
    if !vec_eq(&af, &bf) {
        return lex_less(&af, &bf);
    }
    let an = chars_of(a.api_name.as_str());
    let bn = chars_of(b.api_name.as_str());
    if !vec_eq(&an, &bn) {
        return lex_less(&an, &bn);
    }
    !a.requires_evidence && b.requires_evidence
}

fn entry_same(a: &OntologyRegistryRow, b: &OntologyRegistryRow) -> (r: bool)
    ensures
        r == (a@ == b@),
{
    vec_eq(&chars_of(a.resource_family.as_str()), &chars_of(b.resource_family.as_str())) && vec_eq(
        &chars_of(a.api_name.as_str()),
        &chars_of(b.api_name.as_str()),
    ) && a.requires_evidence == b.requires_evidence
}

/// Adds a row to a sorted registry at its place, unless it holds it.
fn insert_entry(list: &mut Vec<OntologyRegistryRow>, x: OntologyRegistryRow)
    requires
        entries_sorted(rows_view(old(list)@)),
    ensures
        entries_sorted(rows_view(final(list)@)),
        forall|e: RegistryEntry| #[trigger] rows_view(final(list)@).contains(e) <==> (rows_view(old(list)@).contains(e) || e == x@),
{
    let ghost s = rows_view(list@);
    let mut j: usize = 0;
    while j < list.len() && entry_less(&list[j], &x)
        invariant
            j <= list.len(),
            s == rows_view(list@),
            forall|k: int| 0 <= k < j ==> entry_lt(#[trigger] s[k], x@),
        decreases list.len() - j,
    {
        j = j + 1;
    }
    if j < list.len() && entry_same(&list[j], &x) {
        assert(s[j as int] == x@);
        return;
    }
    if j < list.len() {
        proof {
            lemma_entry_order(s[j as int], x@, x@);
        }
    }
    let ghost xv = x@;
    list.insert(j, x);
    proof {
        let n = rows_view(list@);
        assert(n =~= s.insert(j as int, xv));
        assert forall|a: int, b: int| 0 <= a < b < n.len() implies entry_lt(#[trigger] n[a], #[trigger] n[b]) by {
            if b < j {
                assert(n[a] == s[a] && n[b] == s[b]);
            } else if b == j {
                assert(n[a] == s[a] && n[b] == xv);
            } else if a == j {
                assert(n[b] == s[b - 1]);
                if b - 1 > j {
                    lemma_entry_order(xv, s[j as int], s[b - 1]);
                }
            } else if a < j {
                assert(n[a] == s[a] && n[b] == s[b - 1]);
            } else {
                assert(n[a] == s[a - 1] && n[b] == s[b - 1]);
            }
        }
        assert forall|e: RegistryEntry| #[trigger] n.contains(e) <==> (s.contains(e) || e == xv) by {
            if n.contains(e) {
                let i = choose|i: int| 0 <= i < n.len() && n[i] == e;
                if i < j {
                    assert(s[i] == e);
                } else if i > j {
                    assert(s[i - 1] == e);
                }
            }
            if s.contains(e) {
                let i = choose|i: int| 0 <= i < s.len() && s[i] == e;
                if i < j {
                    assert(n[i] == e);
                } else {
                    assert(n[i + 1] == e);
                }
            }
            if e == xv {
                assert(n[j as int] == e);
            }
        }
    }
}

fn registry_row(family: &str, api_name: &str, requires_evidence: bool) -> (r: OntologyRegistryRow)
    ensures
        r@ == (family@, api_name@, requires_evidence),
{
    OntologyRegistryRow {
        resource_family: family.to_owned(),
        api_name: api_name.to_owned(),
        requires_evidence,
    }
}

fn copy_row(r: &OntologyRegistryRow) -> (c: OntologyRegistryRow)
    ensures
        c@ == r@,
{
    OntologyRegistryRow {
        resource_family: string_of(&chars_of(r.resource_family.as_str())),
        api_name: string_of(&chars_of(r.api_name.as_str())),
        requires_evidence: r.requires_evidence,
    }
}

fn insert_all(list: &mut Vec<OntologyRegistryRow>, rows: &Vec<OntologyRegistryRow>)
    requires
        entries_sorted(rows_view(old(list)@)),
    ensures
        entries_sorted(rows_view(final(list)@)),
        forall|e: RegistryEntry| #[trigger] rows_view(final(list)@).contains(e) <==> (rows_view(old(list)@).contains(e) || rows_view(rows@).contains(e)),
{
    let ghost start = rows_view(list@);
    let ghost all = rows_view(rows@);
    let mut k: usize = 0;
    while k < rows.len()
        invariant
            k <= rows.len(),
            all == rows_view(rows@),
            entries_sorted(rows_view(list@)),
            forall|e: RegistryEntry| #[trigger] rows_view(list@).contains(e) <==> (start.contains(e) || all.take(k as int).contains(e)),
        decreases rows.len() - k,
    {
        let x = copy_row(&rows[k]);
        let ghost xv = x@;
        assert(all.take(k + 1) =~= all.take(k as int).push(xv));
        insert_entry(list, x);
        proof {
            let pre = all.take(k as int);
            let now = all.take(k + 1);
            assert forall|e: RegistryEntry| #[trigger] rows_view(list@).contains(e) <==> (start.contains(e) || now.contains(e)) by {
                if now.contains(e) && e != xv {
                    let i = choose|i: int| 0 <= i < now.len() && now[i] == e;
                    assert(pre[i] == e);
                }
                if pre.contains(e) {
                    let i = choose|i: int| 0 <= i < pre.len() && pre[i] == e;
                    assert(now[i] == e);
                }
                if e == xv {
                    assert(now[k as int] == e);
                }
            }
        }
        k = k + 1;
    }
    assert(all.take(rows.len() as int) =~= all);
}


/// Two sorted registries that hold the same rows are equal.
pub proof fn lemma_sorted_registry_unique(a: Seq<RegistryEntry>, b: Seq<RegistryEntry>)
    requires
        entries_sorted(a),
        entries_sorted(b),
        forall|e: RegistryEntry| a.contains(e) <==> b.contains(e),
    ensures
        a == b,
    decreases a.len() + b.len(),
{
    if a.len() == 0 || b.len() == 0 {
        if a.len() > 0 {
            assert(a.contains(a[0]));
        }
        if b.len() > 0 {
            assert(b.contains(b[0]));
        }
        assert(a =~= b);
    } else {
        assert(a.contains(a[0]));
        assert(b.contains(b[0]));
        let ja = choose|j: int| 0 <= j < b.len() && b[j] == a[0];
        let jb = choose|j: int| 0 <= j < a.len() && a[j] == b[0];
        if ja > 0 {
            assert(entry_lt(b[0], b[ja]));
            lemma_entry_order(a[0], b[0], a[0]);
            if jb > 0 {
                assert(entry_lt(a[0], a[jb]));
            }
        }
        assert(a[0] == b[0]);
        let (ta, tb) = (a.drop_first(), b.drop_first());
        assert(entries_sorted(ta)) by {
            assert forall|i: int, j: int| 0 <= i < j < ta.len() implies entry_lt(#[trigger] ta[i], #[trigger] ta[j]) by {
                assert(ta[i] == a[i + 1] && ta[j] == a[j + 1]);
            }
        }
        assert(entries_sorted(tb)) by {
            assert forall|i: int, j: int| 0 <= i < j < tb.len() implies entry_lt(#[trigger] tb[i], #[trigger] tb[j]) by {
                assert(tb[i] == b[i + 1] && tb[j] == b[j + 1]);
            }
        }
        assert forall|e: RegistryEntry| ta.contains(e) <==> tb.contains(e) by {
            if ta.contains(e) {
                let i = choose|i: int| 0 <= i < ta.len() && ta[i] == e;
                assert(a[i + 1] == e);
                assert(entry_lt(a[0], e));
                assert(b.contains(e));
                let k = choose|k: int| 0 <= k < b.len() && b[k] == e;
                if k == 0 {
                    lemma_entry_order(e, e, e);
                }
                assert(tb[k - 1] == e);
            }
            if tb.contains(e) {
                let i = choose|i: int| 0 <= i < tb.len() && tb[i] == e;
                assert(b[i + 1] == e);
                assert(entry_lt(b[0], e));
                assert(a.contains(e));
                let k = choose|k: int| 0 <= k < a.len() && a[k] == e;
                if k == 0 {
                    lemma_entry_order(e, e, e);
                }
                assert(ta[k - 1] == e);
            }
        }
        lemma_sorted_registry_unique(ta, tb);
        assert(a =~= seq![a[0]] + ta);
        assert(b =~= seq![b[0]] + tb);
    }
}

/// The registry of some rows: the sorted list of the distinct rows.
pub open spec fn sorted_registry(all: Seq<RegistryEntry>) -> Seq<RegistryEntry> {
    choose|s: Seq<RegistryEntry>| entries_sorted(s) && forall|e: RegistryEntry| #[trigger] s.contains(e) <==> all.contains(e)
}

fn push_row(out: &mut Vec<OntologyRegistryRow>, row: OntologyRegistryRow)
    ensures
        rows_view(final(out)@) == rows_view(old(out)@).push(row@),
{
    let ghost before = rows_view(out@);
    out.push(row);
    assert(rows_view(out@) =~= before.push(row@));
}

/// The registry rows that one semantic-scope row yields (see
/// `scope_entries`).
pub fn scope_registry_rows(row: &SemanticScopeRow) -> (r: Vec<OntologyRegistryRow>)
    ensures
        rows_view(r@) == scope_entries(*row),
{
    let mut out: Vec<OntologyRegistryRow> = Vec::new();
    let id = match &row.object_id {
        Some(id) => id,
        None => return out,
    };
    if is_blank_vec(&chars_of(id.as_str())) {
        return out;
    }
    let kind: Option<&str> = match &row.kind {
        Some(k) => Some(k.as_str()),
        None => None,
    };
    push_row(&mut out, registry_row(resource_family_for_kind(kind), id.as_str(), false));
    let ghost head = rows_view(out@);
    if let Some(t) = &row.title {
        let tv = chars_of(t.as_str());
        if !is_blank_vec(&tv) && !vec_eq(&tv, &chars_of(id.as_str())) {
            push_row(&mut out, registry_row("object_type", t.as_str(), false));
        }
    }
    let ghost with_title = rows_view(out@);
    let mut i: usize = 0;
    while i < row.relation_targets.len()
        invariant
            i <= row.relation_targets.len(),
            rows_view(out@) == with_title + target_entries(id@, row.relation_targets.deep_view().take(i as int)),
        decreases row.relation_targets.len() - i,
    {
        let target = row.relation_targets[i].as_str();
        let qualified = string_of(&concat2(&concat2(&chars_of(id.as_str()), &lit(".")), &chars_of(target)));
        push_row(&mut out, registry_row("link_type", qualified.as_str(), false));
        push_row(&mut out, registry_row("link_type", target, false));
        proof {
            let ts = row.relation_targets.deep_view();
            assert(ts.take(i + 1).drop_last() =~= ts.take(i as int));
            assert(ts.take(i + 1).last() == target@);
        }
        i = i + 1;
    }
    assert(row.relation_targets.deep_view().take(row.relation_targets.len() as int) =~= row.relation_targets.deep_view());
    let ghost with_targets = rows_view(out@);
    let mut j: usize = 0;
    while j < row.required_validations.len()
        invariant
            j <= row.required_validations.len(),
            rows_view(out@) == with_targets + row.required_validations.deep_view().take(j as int).map_values(
                |v: Seq<char>| ("action_type"@, v, true),
            ),
        decreases row.required_validations.len() - j,
    {
        push_row(&mut out, registry_row("action_type", row.required_validations[j].as_str(), true));
        j = j + 1;
        assert(rows_view(out@) =~= with_targets + row.required_validations.deep_view().take(j as int).map_values(
            |v: Seq<char>| ("action_type"@, v, true),
        ));
    }
    assert(row.required_validations.deep_view().take(row.required_validations.len() as int) =~= row.required_validations.deep_view());
    proof {
        reveal_strlit("task");
        assert(rows_view(out@) =~= scope_entries(*row));
    }
    out
}

/// The ontology registry of the semantic-scope rows: every row they yield
/// (see `scope_entries`), once, in registry order.
pub fn ontology_registry_rows(rows: &Vec<SemanticScopeRow>) -> (r: Vec<OntologyRegistryRow>)
    ensures
        rows_view(r@) == sorted_registry(all_scope_entries(rows@)),
{
    let mut out: Vec<OntologyRegistryRow> = Vec::new();
    let mut i: usize = 0;
    while i < rows.len()
        invariant
            i <= rows.len(),
            entries_sorted(rows_view(out@)),
            forall|e: RegistryEntry| #[trigger] rows_view(out@).contains(e) <==> all_scope_entries(rows@.take(i as int)).contains(e),
        decreases rows.len() - i,
    {
        let ghost prev = rows_view(out@);
        let yielded = scope_registry_rows(&rows[i]);
        insert_all(&mut out, &yielded);
        proof {
            let t = rows@.take(i + 1);
            assert(t.drop_last() =~= rows@.take(i as int));
            assert(t.last() == rows@[i as int]);
            let all_now = all_scope_entries(t);
            let all_prev = all_scope_entries(rows@.take(i as int));
            assert(all_now == all_prev + scope_entries(rows@[i as int]));
            assert forall|e: RegistryEntry| #[trigger] rows_view(out@).contains(e) <==> all_now.contains(e) by {
                let y = scope_entries(rows@[i as int]);
                if all_now.contains(e) {
                    let k = choose|k: int| 0 <= k < all_now.len() && all_now[k] == e;
                    if k < all_prev.len() {
                        assert(all_prev[k] == e);
                    } else {
                        assert(y[k - all_prev.len()] == e);
                    }
                }
                if all_prev.contains(e) {
                    let k = choose|k: int| 0 <= k < all_prev.len() && all_prev[k] == e;
                    assert(all_now[k] == e);
                }
                if y.contains(e) {
                    let k = choose|k: int| 0 <= k < y.len() && y[k] == e;
                    assert(all_now[all_prev.len() + k] == e);
                }
            }
        }
        i = i + 1;
    }
    assert(rows@.take(rows.len() as int) =~= rows@);
    proof {
        let all = all_scope_entries(rows@);
        let v = rows_view(out@);
        assert(entries_sorted(v) && forall|e: RegistryEntry| #[trigger] v.contains(e) <==> all.contains(e));
        let c = sorted_registry(all);
        lemma_sorted_registry_unique(c, v);
    }
    out
}

/// One registry row as a TSV line: family, API name, and `true` or `false`.
pub open spec fn registry_tsv_line(e: RegistryEntry) -> Seq<char> {
    escape_tsv(e.0) + "\t"@ + escape_tsv(e.1) + "\t"@ + if e.2 {
        "true"@
    } else {
        "false"@
    }
}

/// The TSV text of the ontology registry of the semantic-scope rows: one
/// line per registry row, in registry order, lines joined by newlines.
pub fn semantic_scope_rows_to_ontology_registry_tsv(rows: &Vec<SemanticScopeRow>) -> (r: String)
    ensures
        r@ == join(
            sorted_registry(all_scope_entries(rows@)).map_values(|e: RegistryEntry| registry_tsv_line(e)),
            seq!['\n'],
        ),
{
    let registry = ontology_registry_rows(rows);
    let mut lines: Vec<Vec<char>> = Vec::new();
    let mut i: usize = 0;
    while i < registry.len()
        invariant
            i <= registry.len(),
            crate::text::seqs_of(lines@) == rows_view(registry@).take(i as int).map_values(
                |e: RegistryEntry| registry_tsv_line(e),
            ),
        decreases registry.len() - i,
    {
        let row = &registry[i];
        let mut line = chars_of(escape_tsv_field(row.resource_family.as_str()).as_str());
        crate::text::append_chars(&mut line, &lit("\t"));
        crate::text::append_chars(&mut line, &chars_of(escape_tsv_field(row.api_name.as_str()).as_str()));
        crate::text::append_chars(&mut line, &lit("\t"));
        crate::text::append_chars(&mut line, &lit(if row.requires_evidence { "true" } else { "false" }));
        let ghost before = crate::text::seqs_of(lines@);
        lines.push(line);
        proof {
            assert(crate::text::seqs_of(lines@) =~= before.push(line@));
            assert(line@ =~= registry_tsv_line(row@));
            assert(rows_view(registry@).take(i + 1) =~= rows_view(registry@).take(i as int).push(row@));
        }
        i = i + 1;
        assert(crate::text::seqs_of(lines@) =~= rows_view(registry@).take(i as int).map_values(
            |e: RegistryEntry| registry_tsv_line(e),
        ));
    }
    assert(rows_view(registry@).take(registry.len() as int) =~= rows_view(registry@));
    let newline: Vec<char> = vec!['\n'];
    let joined = crate::text::join_vecs(&lines, &newline);
    assert(newline@ =~= seq!['\n']);
    string_of(&joined)
}

} // verus!
