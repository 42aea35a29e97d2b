//! Registry-authority candidates from the project tables of the root
//! `wendao.toml` and the configs it imports.
use vstd::prelude::*;
use crate::candidate_inputs::{line_context_cost, line_context_cost_spec};
use crate::markdown_candidates::{markdown_anchor, markdown_anchor_spec};
use crate::ordered::{sorted_unique, strictly_sorted};
use crate::text::{
    chars_of, concat2, ends_with, lines_of, lines_vec, lit, seqs_of, starts_with, starts_with_vec, string_of,
    strings_of, trim, trim_matches, trim_matches_vec, trim_vec, vec_eq,
};

verus! {

/// One project table of a Wendao registry config.
#[derive(Clone, Debug, PartialEq, Eq)]
pub struct SearchStrategyFlowRegistryAuthorityProject {
    /// Project id: the key of the table.
    pub project_id: String,
    /// Repo-relative path of the config that declares it.
    pub config_path: String,
    /// Line of the table header.
    pub line_start: usize,
    /// Line of the table header.
    pub line_end: usize,
    /// Local root, for a local project.
    pub root: Option<String>,
    /// Remote URL, for a remote project.
    pub url: Option<String>,
    /// Refresh policy.
    pub refresh: Option<String>,
    /// Configured directories.
    pub dirs: Vec<String>,
    /// Configured plugins.
    pub plugins: Vec<String>,
}

/// A config line is the table header `[link_graph.projects.<id>]` of the
/// project, the id optionally quoted.
pub open spec fn table_line_matches(line: Seq<char>, project_id: Seq<char>) -> bool {
    let t = trim(line);
    let prefix = "[link_graph.projects."@;
    starts_with(t, prefix) && ends_with(t.skip(prefix.len() as int), "]"@) && trim_matches(
        t.skip(prefix.len() as int).drop_last(),
        '"',
    ) == project_id
}

/// Whether a config line is the table header of the project.
pub fn project_table_line_matches(line: &[char], project_id: &str) -> (b: bool)
    ensures
        b == table_line_matches(line@, project_id@),
{
    let t = trim_vec(line);
    let prefix = lit("[link_graph.projects.");
    if !starts_with_vec(&t, &prefix) {
        return false;
    }
    let rest = crate::text::sub_vec(&t, prefix.len(), t.len());
    assert(rest@ =~= t@.skip(prefix@.len() as int));
    if !crate::text::ends_with_vec(&rest, &lit("]")) {
        return false;
    }
    proof {
        reveal_strlit("]");
    }
    let body = crate::text::sub_vec(&rest, 0, rest.len() - 1);
    assert(body@ =~= rest@.drop_last());
    vec_eq(&trim_matches_vec(&body, '"'), &chars_of(project_id))
}

/// The line (counted from one) of the first header of the project.
pub open spec fn table_line(lines: Seq<Seq<char>>, project_id: Seq<char>, from: int) -> Option<int>
    decreases lines.len() - from,
{
    if from < 0 || from >= lines.len() {
        None
    } else if table_line_matches(lines[from], project_id) {
        Some(from + 1)
    } else {
        table_line(lines, project_id, from + 1)
    }
}

/// Finds the line of the project's table header in the config text.
pub fn project_table_line(config_text: &str, project_id: &str) -> (r: Option<usize>)
    ensures
        match (r, table_line(lines_of(config_text@), project_id@, 0)) {
            (Some(a), Some(b)) => a == b,
            (None, None) => true,
            _ => false,
        },
{
    let cs = chars_of(config_text);
    let lines = lines_vec(&cs);
    let ghost lv = seqs_of(lines@);
    let mut i: usize = 0;
    while i < lines.len()
        invariant
            i <= lines.len(),
            lv == seqs_of(lines@),
            lv == lines_of(config_text@),
            table_line(lv, project_id@, 0) == table_line(lv, project_id@, i as int),
        decreases lines.len() - i,
    {
        assert(lv[i as int] == lines@[i as int]@);
        if project_table_line_matches(&lines[i], project_id) {
            return Some(i + 1);
        }
        i = i + 1;
    }
    None
}

/// The fixed edge kinds of a registry-authority candidate.
pub open spec fn registry_edge_kinds(p: SearchStrategyFlowRegistryAuthorityProject) -> Seq<Seq<char>> {
    seq![
        "authority"@,
        "registry-authority"@,
        "source-authority"@,
        "package-owner"@,
        "project-metadata"@,
        "wendao-config"@,
        "rust-discovered"@,
    ] + (if p.url is Some {
        seq!["remote-resource"@]
    } else {
        Seq::empty()
    }) + (if p.root is Some {
        seq!["local-resource"@]
    } else {
        Seq::empty()
    }) + p.plugins.deep_view().map_values(|plugin: Seq<char>| "plugin:"@ + plugin)
}

/// A registry-authority candidate, without its fixed scores.
#[derive(Clone, Debug, PartialEq, Eq)]
pub struct RegistryAuthorityCandidate {
    /// The config path.
    pub relative_path: String,
    /// Anchor derived from the project id.
    pub heading_anchor: String,
    /// `Registry authority: <id>`.
    pub title: String,
    /// Line of the table header.
    pub line_start: usize,
    /// Line of the table header.
    pub line_end: usize,
    /// Context cost: the line span, and two per directory and per plugin.
    pub context_cost: usize,
    /// Edge kinds, sorted and without duplicates.
    pub edge_kinds: Vec<String>,
}

/// The context cost of a registry-authority candidate.
pub open spec fn registry_context_cost(p: SearchStrategyFlowRegistryAuthorityProject) -> int {
    let sat = |n: int| if n * 2 > usize::MAX {
        usize::MAX as int
    } else {
        n * 2
    };
    line_context_cost_spec(p.line_start as int, p.line_end as int) + sat(p.dirs@.len() as int) + sat(p.plugins@.len() as int)
}

fn saturating_double(n: usize) -> (r: usize)
    ensures
        r == if n * 2 > usize::MAX {
            usize::MAX as int
        } else {
            n * 2
        },
{
    if n > usize::MAX / 2 {
        usize::MAX
    } else {
        n * 2
    }
}

/// The registry-authority candidate of one project.
pub fn registry_authority_candidate_input(p: &SearchStrategyFlowRegistryAuthorityProject) -> (r: RegistryAuthorityCandidate)
    requires
        registry_context_cost(*p) <= usize::MAX,
    ensures
        r.relative_path@ == p.config_path@,
        r.heading_anchor@ == "registry-authority-source-authority-package-owner-"@ + markdown_anchor_spec(p.project_id@),
        r.title@ == "Registry authority: "@ + p.project_id@,
        r.line_start == p.line_start,
        r.line_end == p.line_end,
        r.context_cost == registry_context_cost(*p),
        strictly_sorted(r.edge_kinds.deep_view()),
        forall|t: Seq<char>| #[trigger] r.edge_kinds.deep_view().contains(t) <==> registry_edge_kinds(*p).contains(t),
{
    let mut kinds: Vec<Vec<char>> = Vec::new();
    kinds.push(lit("authority"));
    kinds.push(lit("registry-authority"));
    kinds.push(lit("source-authority"));
    kinds.push(lit("package-owner"));
    kinds.push(lit("project-metadata"));
    kinds.push(lit("wendao-config"));
    kinds.push(lit("rust-discovered"));
    let ghost k0 = seqs_of(kinds@);
    if p.url.is_some() {
        kinds.push(lit("remote-resource"));
    }
    let ghost k1 = seqs_of(kinds@);
    if p.root.is_some() {
        kinds.push(lit("local-resource"));
    }
    let ghost k2 = seqs_of(kinds@);
    let ghost plugins = p.plugins.deep_view().map_values(|plugin: Seq<char>| "plugin:"@ + plugin);
    let mut i: usize = 0;
    while i < p.plugins.len()
        invariant
            i <= p.plugins.len(),
            plugins == p.plugins.deep_view().map_values(|plugin: Seq<char>| "plugin:"@ + plugin),
            seqs_of(kinds@) == k2 + plugins.take(i as int),
        decreases p.plugins.len() - i,
    {
        let ghost before = seqs_of(kinds@);
        kinds.push(concat2(&lit("plugin:"), &chars_of(p.plugins[i].as_str())));
        assert(plugins.take(i + 1) =~= plugins.take(i as int).push(plugins[i as int]));
        assert(seqs_of(kinds@) =~= before.push(plugins[i as int]));
        i = i + 1;
    }
    assert(plugins.take(p.plugins.len() as int) =~= plugins);
    assert(seqs_of(kinds@) =~= registry_edge_kinds(*p));
    let edge_kinds = strings_of(&sorted_unique(&kinds));
    let anchor = markdown_anchor(p.project_id.as_str());
    let mut heading_anchor = "registry-authority-source-authority-package-owner-".to_owned();
    heading_anchor.append(anchor.as_str());
    let mut title = "Registry authority: ".to_owned();
    title.append(p.project_id.as_str());
    let context_cost = line_context_cost(p.line_start, p.line_end) + saturating_double(p.dirs.len())
        + saturating_double(p.plugins.len());
    RegistryAuthorityCandidate {
        relative_path: string_of(&chars_of(p.config_path.as_str())),
        heading_anchor,
        title,
        line_start: p.line_start,
        line_end: p.line_end,
        context_cost,
        edge_kinds,
    }
}

/// The number of projects with a local root.
pub open spec fn local_count(rows: Seq<SearchStrategyFlowRegistryAuthorityProject>) -> nat
    decreases rows.len(),
{
    if rows.len() == 0 {
        0
    } else {
        local_count(rows.drop_last()) + if rows.last().root is Some {
            1nat
        } else {
            0nat
        }
    }
}

/// The number of projects with a remote URL.
pub open spec fn remote_count(rows: Seq<SearchStrategyFlowRegistryAuthorityProject>) -> nat
    decreases rows.len(),
{
    if rows.len() == 0 {
        0
    } else {
        remote_count(rows.drop_last()) + if rows.last().url is Some {
            1nat
        } else {
            0nat
        }
    }
}

/// The local and remote project counts of an audit.
pub fn registry_project_counts(rows: &Vec<SearchStrategyFlowRegistryAuthorityProject>) -> (r: (usize, usize))
    ensures
        r.0 == local_count(rows@),
        r.1 == remote_count(rows@),
{
    let mut local: usize = 0;
    let mut remote: usize = 0;
    let mut i: usize = 0;
    while i < rows.len()
        invariant
            i <= rows.len(),
            local == local_count(rows@.take(i as int)),
            remote == remote_count(rows@.take(i as int)),
            local <= i,
            remote <= i,
        decreases rows.len() - i,
    {
        assert(rows@.take(i + 1).drop_last() =~= rows@.take(i as int));
        if rows[i].root.is_some() {
            local = local + 1;
        }
        if rows[i].url.is_some() {
            remote = remote + 1;
        }
        i = i + 1;
    }
    assert(rows@.take(rows.len() as int) =~= rows@);
    (local, remote)
}


/// The first project of the list with the id.
pub open spec fn first_with_id(s: Seq<SearchStrategyFlowRegistryAuthorityProject>, id: Seq<char>) -> Option<
    SearchStrategyFlowRegistryAuthorityProject,
>
    decreases s.len(),
{
    if s.len() == 0 {
        None
    } else if s[0].project_id@ == id {
        Some(s[0])
    } else {
        first_with_id(s.drop_first(), id)
    }
}

proof fn lemma_first_with_id_push(
    s: Seq<SearchStrategyFlowRegistryAuthorityProject>,
    x: SearchStrategyFlowRegistryAuthorityProject,
    id: Seq<char>,
)
    ensures
        first_with_id(s.push(x), id) == match first_with_id(s, id) {
            Some(p) => Some(p),
            None => if x.project_id@ == id {
                Some(x)
            } else {
                None
            },
        },
    decreases s.len(),
{
    if s.len() > 0 {
        assert(s.push(x)[0] == s[0]);
        assert(s.push(x).drop_first() =~= s.drop_first().push(x));
        lemma_first_with_id_push(s.drop_first(), x, id);
    } else {
        assert(s.push(x)[0] == x);
        assert(s.push(x).drop_first() =~= Seq::<SearchStrategyFlowRegistryAuthorityProject>::empty());
        assert(first_with_id(Seq::<SearchStrategyFlowRegistryAuthorityProject>::empty(), id) is None);
    }
}

/// The ids of the projects, in order.
pub open spec fn project_ids(s: Seq<SearchStrategyFlowRegistryAuthorityProject>) -> Seq<Seq<char>> {
    s.map_values(|p: SearchStrategyFlowRegistryAuthorityProject| p.project_id@)
}

/// What the walk has gathered for an id: the project of the earliest config
/// that declares it.
pub open spec fn gathered(s: Seq<SearchStrategyFlowRegistryAuthorityProject>, id: Seq<char>) -> Option<
    SearchStrategyFlowRegistryAuthorityProject,
> {
    if project_ids(s).contains(id) {
        Some(choose|p: SearchStrategyFlowRegistryAuthorityProject| s.contains(p) && p.project_id@ == id)
    } else {
        None
    }
}

/// Walk over the registry configs: the root config, then each import in
/// order, depth first, each config read once. Of projects declared more
/// than once, the first declaration counts.
#[derive(Debug)]
pub struct RegistrySurfaceWalk {
    /// Configs still to read, the next one last.
    pub pending: Vec<String>,
    /// Keys of the configs read so far.
    pub visited: Vec<String>,
    /// The projects gathered so far, ordered by id.
    pub projects: Vec<SearchStrategyFlowRegistryAuthorityProject>,
}

/// The root config of a project.
pub const ROOT_WENDAO_CONFIG_PATH: &'static str = "wendao.toml";

/// The name of the root config surface.
pub const ROOT_WENDAO_CONFIG_SURFACE: &'static str = "root-wendao.toml";

impl RegistrySurfaceWalk {
    /// The gathered projects come ordered by id, each id once.
    pub open spec fn wf(&self) -> bool {
        strictly_sorted(project_ids(self.projects@))
    }

    /// A walk that starts at the root config.
    pub fn new() -> (r: Self)
        ensures
            r.wf(),
            r.pending.deep_view() == seq![ROOT_WENDAO_CONFIG_PATH@],
            r.visited.len() == 0,
            r.projects.len() == 0,
    {
        let mut pending: Vec<String> = Vec::new();
        crate::text::push_string(&mut pending, ROOT_WENDAO_CONFIG_PATH.to_owned());
        assert(pending.deep_view() =~= seq![ROOT_WENDAO_CONFIG_PATH@]);
        let r = RegistrySurfaceWalk { pending, visited: Vec::new(), projects: Vec::new() };
        assert(project_ids(r.projects@) =~= Seq::<Seq<char>>::empty());
        r
    }

    /// The next config to read, taken off the pending list; none when the
    /// walk is over.
    pub fn next_config(&mut self) -> (r: Option<String>)
        ensures
            final(self).visited.deep_view() == old(self).visited.deep_view(),
            final(self).projects@ == old(self).projects@,
            old(self).pending.len() == 0 ==> r is None && final(self).pending.len() == 0,
            old(self).pending.len() > 0 ==> (r matches Some(p) && p@ == old(self).pending.deep_view().last()
                && final(self).pending.deep_view() == old(self).pending.deep_view().drop_last()),
    {
        let ghost before = self.pending.deep_view();
        let r = self.pending.pop();
        proof {
            if before.len() > 0 {
                assert(self.pending.deep_view() =~= before.drop_last());
            }
        }
        r
    }

    /// Marks a config as read; false when it was read before.
    pub fn enter(&mut self, key: String) -> (fresh: bool)
        ensures
            final(self).pending.deep_view() == old(self).pending.deep_view(),
            final(self).projects@ == old(self).projects@,
            fresh == !old(self).visited.deep_view().contains(key@),
            fresh ==> final(self).visited.deep_view() == old(self).visited.deep_view().push(key@),
            !fresh ==> final(self).visited.deep_view() == old(self).visited.deep_view(),
    {
        let mut i: usize = 0;
        while i < self.visited.len()
            invariant
                i <= self.visited.len(),
                forall|j: int| 0 <= j < i ==> self.visited.deep_view()[j] != key@,
            decreases self.visited.len() - i,
        {
            if vec_eq(&chars_of(self.visited[i].as_str()), &chars_of(key.as_str())) {
                assert(self.visited.deep_view()[i as int] == key@);
                return false;
            }
            i = i + 1;
        }
        crate::text::push_string(&mut self.visited, key);
        true
    }

    fn insert_project(&mut self, x: SearchStrategyFlowRegistryAuthorityProject)
        requires
            old(self).wf(),
        ensures
            final(self).wf(),
            final(self).pending.deep_view() == old(self).pending.deep_view(),
            final(self).visited.deep_view() == old(self).visited.deep_view(),
            project_ids(old(self).projects@).contains(x.project_id@) ==> final(self).projects@ == old(self).projects@,
            !project_ids(old(self).projects@).contains(x.project_id@) ==> exists|j: int|
                0 <= j <= old(self).projects.len() && final(self).projects@ == old(self).projects@.insert(j, x),
    {
        let ghost s = self.projects@;
        let ghost ids = project_ids(s);
        let xid = chars_of(x.project_id.as_str());
        let mut j: usize = 0;
        while j < self.projects.len() && crate::ordered::lex_less(&chars_of(self.projects[j].project_id.as_str()), &xid)
            invariant
                j <= self.projects.len(),
                s == self.projects@,
                ids == project_ids(s),
                xid@ == x.project_id@,
                forall|k: int| 0 <= k < j ==> crate::ordered::lex_lt(#[trigger] ids[k], x.project_id@),
            decreases self.projects.len() - j,
        {
            j = j + 1;
        }
        if j < self.projects.len() && vec_eq(&chars_of(self.projects[j].project_id.as_str()), &xid) {
            assert(ids[j as int] == x.project_id@);
            return;
        }
        proof {
            if j < s.len() {
                crate::ordered::lemma_lex_total(ids[j as int], x.project_id@);
            }
            assert(!ids.contains(x.project_id@)) by {
                if ids.contains(x.project_id@) {
                    let k = choose|k: int| 0 <= k < ids.len() && ids[k] == x.project_id@;
                    if k < j {
                        crate::ordered::lemma_lex_irreflexive(x.project_id@);
                    } else if k > j {
                        crate::ordered::lemma_lex_transitive(x.project_id@, ids[j as int], ids[k]);
                        crate::ordered::lemma_lex_irreflexive(x.project_id@);
                    }
                }
            }
        }
        let ghost xv = x;
        self.projects.insert(j, x);
        proof {
            let n = project_ids(self.projects@);
            assert(self.projects@ == s.insert(j as int, xv));
            assert(n =~= ids.insert(j as int, xv.project_id@));
            assert forall|a: int, b: int| 0 <= a < b < n.len() implies crate::ordered::lex_lt(#[trigger] n[a], #[trigger] n[b]) by {
                if b < j {
                    assert(n[a] == ids[a] && n[b] == ids[b]);
                } else if b == j {
                    assert(n[a] == ids[a]);
                } else if a == j {
                    assert(n[b] == ids[b - 1]);
                    if b - 1 > j {
                        crate::ordered::lemma_lex_transitive(xv.project_id@, ids[j as int], ids[b - 1]);
                    }
                } else if a < j {
                    assert(n[a] == ids[a] && n[b] == ids[b - 1]);
                } else {
                    assert(n[a] == ids[a - 1] && n[b] == ids[b - 1]);
                }
            }
        }
    }

    /// Takes what one config declares: its projects, in table order, and
    /// the configs it imports, in order. A project whose id was gathered
    /// before is dropped; the imports are read next, in order.
    pub fn on_config(
        &mut self,
        projects: Vec<SearchStrategyFlowRegistryAuthorityProject>,
        imports: Vec<String>,
    )
        requires
            old(self).wf(),
        ensures
            final(self).wf(),
            final(self).visited.deep_view() == old(self).visited.deep_view(),
            final(self).pending.deep_view() == old(self).pending.deep_view() + imports.deep_view().reverse(),
            forall|id: Seq<char>| #[trigger] project_ids(final(self).projects@).contains(id) <==> (project_ids(old(self).projects@).contains(id)
                || project_ids(projects@).contains(id)),
            forall|p: SearchStrategyFlowRegistryAuthorityProject| #[trigger] old(self).projects@.contains(p) ==> final(self).projects@.contains(p),
            forall|id: Seq<char>| !project_ids(old(self).projects@).contains(id) && #[trigger] first_with_id(projects@, id) is Some
                ==> final(self).projects@.contains(first_with_id(projects@, id)->0),
            final(self).projects.len() <= old(self).projects.len() + projects.len(),
    {
        let ghost start = self.projects@;
        let ghost mut i: int = 0;
        let mut projects = projects;
        let ghost all = projects@;
        while projects.len() > 0
            invariant
                self.wf(),
                0 <= i <= all.len(),
                all.len() == i + projects.len(),
                projects@ == all.skip(i),
                self.visited.deep_view() == old(self).visited.deep_view(),
                self.pending.deep_view() == old(self).pending.deep_view(),
                forall|id: Seq<char>| #[trigger] project_ids(self.projects@).contains(id) <==> (project_ids(start).contains(id)
                    || project_ids(all.take(i)).contains(id)),
                forall|p: SearchStrategyFlowRegistryAuthorityProject| #[trigger] start.contains(p) ==> self.projects@.contains(p),
                forall|id: Seq<char>| !project_ids(start).contains(id) && #[trigger] first_with_id(all.take(i), id) is Some
                    ==> self.projects@.contains(first_with_id(all.take(i), id)->0),
                self.projects.len() <= start.len() + i,
            decreases projects.len(),
        {
            let x = projects.remove(0);
            let ghost xv = x;
            let ghost cur = self.projects@;
            proof {
                assert(xv == all[i]);
                assert(all.take(i + 1) =~= all.take(i).push(xv));
                assert(projects@ =~= all.skip(i + 1));
            }
            self.insert_project(x);
            proof {
                let pre = all.take(i);
                let now = all.take(i + 1);
                let nv = self.projects@;
                assert(project_ids(now) =~= project_ids(pre).push(xv.project_id@));
                let inserted = !project_ids(cur).contains(xv.project_id@);
                let j = if inserted {
                    choose|j: int| 0 <= j <= cur.len() && nv == cur.insert(j, xv)
                } else {
                    0
                };
                if inserted {
                    assert(nv == cur.insert(j, xv));
                    assert(project_ids(nv) =~= project_ids(cur).insert(j, xv.project_id@));
                    assert(nv[j] == xv);
                } else {
                    assert(nv == cur);
                }
                assert forall|id: Seq<char>| #[trigger] project_ids(nv).contains(id) <==> (project_ids(cur).contains(id)
                    || id == xv.project_id@) by {
                    if inserted {
                        let ni = project_ids(nv);
                        let ci = project_ids(cur);
                        if ni.contains(id) {
                            let k = choose|k: int| 0 <= k < ni.len() && ni[k] == id;
                            if k < j {
                                assert(ci[k] == id);
                            } else if k > j {
                                assert(ci[k - 1] == id);
                            }
                        }
                        if ci.contains(id) {
                            let k = choose|k: int| 0 <= k < ci.len() && ci[k] == id;
                            if k < j {
                                assert(ni[k] == id);
                            } else {
                                assert(ni[k + 1] == id);
                            }
                        }
                        if id == xv.project_id@ {
                            assert(ni[j] == id);
                        }
                    }
                }
                assert forall|id: Seq<char>| #[trigger] project_ids(now).contains(id) <==> (project_ids(pre).contains(id)
                    || id == xv.project_id@) by {
                    let wi = project_ids(now);
                    let pi = project_ids(pre);
                    if wi.contains(id) {
                        let k = choose|k: int| 0 <= k < wi.len() && wi[k] == id;
                        if k < pi.len() {
                            assert(pi[k] == id);
                        }
                    }
                    if pi.contains(id) {
                        let k = choose|k: int| 0 <= k < pi.len() && pi[k] == id;
                        assert(wi[k] == id);
                    }
                    if id == xv.project_id@ {
                        assert(wi[pi.len() as int] == id);
                    }
                }
                assert forall|p: SearchStrategyFlowRegistryAuthorityProject| #[trigger] cur.contains(p) implies nv.contains(p) by {
                    if inserted {
                        let k = choose|k: int| 0 <= k < cur.len() && cur[k] == p;
                        if k < j {
                            assert(nv[k] == p);
                        } else {
                            assert(nv[k + 1] == p);
                        }
                    }
                }
                assert forall|id: Seq<char>| !project_ids(start).contains(id) && #[trigger] first_with_id(now, id) is Some
                    implies nv.contains(first_with_id(now, id)->0) by {
                    lemma_first_with_id_push(pre, xv, id);
                    if first_with_id(pre, id) is Some {
                        assert(cur.contains(first_with_id(pre, id)->0));
                    } else {
                        assert(xv.project_id@ == id);
                        if !inserted {
                            assert(project_ids(pre).contains(id));
                            let m = choose|m: int| 0 <= m < project_ids(pre).len() && project_ids(pre)[m] == id;
                            lemma_first_with_id_some(pre, id, m);
                        }
                        assert(nv[j] == xv);
                    }
                }
            }
            proof {
                i = i + 1;
            }
        }
        assert(all.take(i) =~= all);
        let mut imports = imports;
        let ghost imp = imports.deep_view();
        let ghost base = self.pending.deep_view();
        let ghost gathered_projects = self.projects@;
        while imports.len() > 0
            invariant
                self.pending.deep_view() == base + imp.skip(imports.len() as int).reverse(),
                imports.deep_view() == imp.take(imports.len() as int),
                imports.len() <= imp.len(),
                self.projects@ == gathered_projects,
                self.visited.deep_view() == old(self).visited.deep_view(),
            decreases imports.len(),
        {
            let ghost n = imports.len();
            let ghost held = imports@;
            let last = imports.pop().unwrap();
            proof {
                assert(imports.deep_view() =~= imp.take(n - 1));
                assert(last == held[n - 1]);
                assert(held[n - 1]@ == imp.take(n as int)[n - 1]);
            }
            crate::text::push_string(&mut self.pending, last);
            proof {
                assert(imp.skip(n - 1).reverse() =~= imp.skip(n as int).reverse().push(imp[n - 1]));
            }
        }
        assert(imp.skip(0) =~= imp);
    }
}

/// What the walk over the registry configs found.
#[derive(Debug)]
pub struct SearchStrategyFlowRegistryAuthorityAudit {
    pub config_surface: String,
    pub configured_project_count: usize,
    pub local_project_count: usize,
    pub remote_project_count: usize,
    pub visited_config_count: usize,
    pub rows: Vec<SearchStrategyFlowRegistryAuthorityProject>,
}

impl RegistrySurfaceWalk {
    /// The audit of a finished walk: its projects in id order, how many of
    /// them are local and remote, and how many configs it read.
    pub fn into_audit(self) -> (r: SearchStrategyFlowRegistryAuthorityAudit)
        ensures
            r.config_surface@ == ROOT_WENDAO_CONFIG_SURFACE@,
            r.rows@ == self.projects@,
            r.configured_project_count == self.projects.len(),
            r.local_project_count == local_count(self.projects@),
            r.remote_project_count == remote_count(self.projects@),
            r.visited_config_count == self.visited.len(),
    {
        let (local, remote) = registry_project_counts(&self.projects);
        SearchStrategyFlowRegistryAuthorityAudit {
            config_surface: ROOT_WENDAO_CONFIG_SURFACE.to_owned(),
            configured_project_count: self.projects.len(),
            local_project_count: local,
            remote_project_count: remote,
            visited_config_count: self.visited.len(),
            rows: self.projects,
        }
    }
}

proof fn lemma_first_with_id_some(s: Seq<SearchStrategyFlowRegistryAuthorityProject>, id: Seq<char>, m: int)
    requires
        0 <= m < s.len(),
        s[m].project_id@ == id,
    ensures
        first_with_id(s, id) is Some,
    decreases s.len(),
{
    if s[0].project_id@ != id {
        lemma_first_with_id_some(s.drop_first(), id, m - 1);
    }
}

} // verus!
