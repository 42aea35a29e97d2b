//! Checks on what goes into and comes back from the `WendaoGraph.jl` host
//! process that runs `SearchStrategyFlow`.
use vstd::prelude::*;
use crate::probe_actions::validate_search_strategy_flow_intent;
use crate::text::{chars_of, decimal, decimal_text, is_blank, lines_of, lines_vec, seqs_of, starts_with, string_of, trim, trim_vec, vec_eq, lit};

verus! {

/// The first blank intent of a batch, if any.
pub open spec fn first_blank_intent(intents: Seq<String>) -> bool {
    exists|i: int| 0 <= i < intents.len() && is_blank((#[trigger] intents[i])@)
}

/// Checks a batch request: at least one candidate batch, and no blank intent.
/// Returns the number of batches.
pub fn validate_batch_request(intents: &Vec<String>) -> (r: Result<usize, String>)
    ensures
        match r {
            Ok(n) => n == intents@.len() && intents@.len() > 0 && !first_blank_intent(intents@),
            Err(e) => if intents@.len() == 0 {
                e@ == "SearchStrategyFlow batch request must include at least one candidate batch"@
            } else {
                first_blank_intent(intents@) && e@ == "SearchStrategyFlow intent must not be blank"@
            },
        },
{
    if intents.len() == 0 {
        return Err("SearchStrategyFlow batch request must include at least one candidate batch".to_owned());
    }
    let mut i: usize = 0;
    while i < intents.len()
        invariant
            i <= intents.len(),
            forall|j: int| 0 <= j < i ==> !is_blank((#[trigger] intents@[j])@),
        decreases intents.len() - i,
    {
        match validate_search_strategy_flow_intent(intents[i].as_str()) {
            Err(e) => {
                return Err(e);
            },
            Ok(()) => {},
        }
        i = i + 1;
    }
    Ok(intents.len())
}

/// The trimmed lines of the output that are not blank, in order.
pub open spec fn nonblank_trimmed(lines: Seq<Seq<char>>) -> Seq<Seq<char>>
    decreases lines.len(),
{
    if lines.len() == 0 {
        Seq::empty()
    } else if trim(lines.last()).len() == 0 {
        nonblank_trimmed(lines.drop_last())
    } else {
        nonblank_trimmed(lines.drop_last()).push(trim(lines.last()))
    }
}

/// The traces of a batch run: one trimmed line per batch.
pub open spec fn batch_traces(stdout: Seq<char>, batch_count: nat) -> Result<Seq<Seq<char>>, Seq<char>> {
    let traces = nonblank_trimmed(lines_of(stdout));
    if traces.len() == 0 {
        Err("WendaoGraph SearchStrategyFlow batch host request returned empty output"@)
    } else if traces.len() != batch_count {
        Err("WendaoGraph SearchStrategyFlow batch host request returned "@ + decimal(traces.len()) + " traces for "@
            + decimal(batch_count) + " batches"@)
    } else {
        Ok(traces)
    }
}

/// Reads the traces of a batch run from its standard output.
pub fn parse_batch_stdout(stdout: &str, batch_count: usize) -> (r: Result<Vec<String>, String>)
    ensures
        match (r, batch_traces(stdout@, batch_count as nat)) {
            (Ok(a), Ok(b)) => a.deep_view() == b,
            (Err(a), Err(b)) => a@ == b,
            _ => false,
        },
{
    let cs = chars_of(stdout);
    let lines = lines_vec(&cs);
    let ghost lv = seqs_of(lines@);
    let mut traces: Vec<String> = Vec::new();
    let mut i: usize = 0;
    while i < lines.len()
        invariant
            i <= lines.len(),
            lv == seqs_of(lines@),
            traces.deep_view() == nonblank_trimmed(lv.take(i as int)),
        decreases lines.len() - i,
    {
        assert(lv.take(i + 1).drop_last() =~= lv.take(i as int));
        assert(lv.take(i + 1).last() == lines@[i as int]@);
        let t = trim_vec(&lines[i]);
        if t.len() > 0 {
            crate::text::push_string(&mut traces, string_of(&t));
        }
        i = i + 1;
    }
    assert(lv.take(lines.len() as int) =~= lv);
    if traces.len() == 0 {
        return Err("WendaoGraph SearchStrategyFlow batch host request returned empty output".to_owned());
    }
    if traces.len() != batch_count {
        let mut m = "WendaoGraph SearchStrategyFlow batch host request returned ".to_owned();
        m.append(decimal_text(traces.len()).as_str());
        m.append(" traces for ");
        m.append(decimal_text(batch_count).as_str());
        m.append(" batches");
        return Err(m);
    }
    Ok(traces)
}

/// Reads the trace of a single run from its standard output: the trimmed
/// output, which must not be empty.
pub fn host_trace_from_stdout(stdout: &str) -> (r: Result<String, String>)
    ensures
        match r {
            Ok(t) => !is_blank(stdout@) && t@ == trim(stdout@),
            Err(e) => is_blank(stdout@) && e@ == "WendaoGraph SearchStrategyFlow host request returned empty output"@,
        },
{
    let t = trim_vec(&chars_of(stdout));
    if t.len() == 0 {
        return Err("WendaoGraph SearchStrategyFlow host request returned empty output".to_owned());
    }
    Ok(string_of(&t))
}

/// The file of an optional Arrow IPC side table: the trimmed path, or none
/// when the path is blank.
pub fn optional_arrow_ipc_path(path: &str) -> (r: Option<String>)
    ensures
        match r {
            Some(p) => !is_blank(path@) && p@ == trim(path@),
            None => is_blank(path@),
        },
{
    let t = trim_vec(&chars_of(path));
    if t.len() == 0 {
        None
    } else {
        Some(string_of(&t))
    }
}

/// Refuses an optional Arrow IPC side-table file that was read but is empty.
pub fn check_optional_arrow_ipc_payload(label: &str, path: &str, payload: Vec<u8>) -> (r: Result<Vec<u8>, String>)
    ensures
        match r {
            Ok(p) => payload@.len() > 0 && p@ == payload@,
            Err(e) => payload@.len() == 0 && e@ == "SearchStrategyFlow "@ + label@ + " Arrow IPC file `"@ + path@ + "` is empty"@,
        },
{
    if payload.len() == 0 {
        let mut m = "SearchStrategyFlow ".to_owned();
        m.append(label);
        m.append(" Arrow IPC file `");
        m.append(path);
        m.append("` is empty");
        return Err(m);
    }
    Ok(payload)
}

/// Where a `WendaoSearch` contract path points.
#[derive(Clone, Debug, PartialEq, Eq)]
pub enum WendaoSearchContractTarget {
    /// The `WendaoCodeParser.jl` service script.
    CodeParserScript,
    /// The `WendaoCodeParser.jl` parser-summary config.
    CodeParserConfig,
    /// A path inside the `WendaoCodeParser.jl` package.
    CodeParserPackage(String),
    /// A path inside the `WendaoSearch.jl` package.
    WendaoSearchPackage(String),
    /// A path relative to the repository root.
    RepoRoot(String),
}

/// Where a configured contract path points: package-relative under one of
/// the two workspace prefixes, else relative to the repository root.
pub open spec fn contract_target_is(configured: Seq<char>, label: Seq<char>, t: WendaoSearchContractTarget) -> bool {
    let cp = ".data/WendaoCodeParser.jl/"@;
    let sp = ".data/WendaoSearch.jl/"@;
    if starts_with(configured, cp) {
        let rel = configured.skip(cp.len() as int);
        if label == "script"@ && rel == "scripts/run_service.jl"@ {
            t == WendaoSearchContractTarget::CodeParserScript
        } else if label == "config"@ && rel == "config/live/parser_summary.toml"@ {
            t == WendaoSearchContractTarget::CodeParserConfig
        } else {
            t matches WendaoSearchContractTarget::CodeParserPackage(p) && p@ == rel
        }
    } else if starts_with(configured, sp) {
        t matches WendaoSearchContractTarget::WendaoSearchPackage(p) && p@ == configured.skip(sp.len() as int)
    } else {
        t matches WendaoSearchContractTarget::RepoRoot(p) && p@ == configured
    }
}

/// Classifies a configured `WendaoSearch` contract path.
pub fn classify_wendaosearch_contract_path(configured: &str, label: &str) -> (r: WendaoSearchContractTarget)
    ensures
        contract_target_is(configured@, label@, r),
{
    let c = chars_of(configured);
    let l = chars_of(label);
    let cp = lit(".data/WendaoCodeParser.jl/");
    let sp = lit(".data/WendaoSearch.jl/");
    if crate::text::starts_with_vec(&c, &cp) {
        let rel = crate::text::sub_vec(&c, cp.len(), c.len());
        assert(rel@ =~= configured@.skip(cp@.len() as int));
        if vec_eq(&l, &lit("script")) && vec_eq(&rel, &lit("scripts/run_service.jl")) {
            return WendaoSearchContractTarget::CodeParserScript;
        }
        if vec_eq(&l, &lit("config")) && vec_eq(&rel, &lit("config/live/parser_summary.toml")) {
            return WendaoSearchContractTarget::CodeParserConfig;
        }
        return WendaoSearchContractTarget::CodeParserPackage(string_of(&rel));
    }
    if crate::text::starts_with_vec(&c, &sp) {
        let rel = crate::text::sub_vec(&c, sp.len(), c.len());
        assert(rel@ =~= configured@.skip(sp@.len() as int));
        return WendaoSearchContractTarget::WendaoSearchPackage(string_of(&rel));
    }
    WendaoSearchContractTarget::RepoRoot(configured.to_owned())
}

} // verus!
