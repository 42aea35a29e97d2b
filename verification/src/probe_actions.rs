//! The probe actions that the Rust bridge admits from a `SearchStrategyFlow` planner,
//! and the native Flight route family each one opens.
use vstd::prelude::*;
use crate::text::{
    before_first, chars_of, has_char, is_blank, is_blank_vec, lit, split_once_vec, string_of, trim,
    trim_vec, vec_eq,
};

verus! {

/// Future `SearchStrategyFlow` probe action admitted by the Rust bridge.
#[derive(Clone, Copy, Debug, PartialEq, Eq, Structural)]
pub enum SearchStrategyFlowProbeAction {
    /// Expand relation context through graph-neighbor materialization.
    ExpandNeighbors,
    /// Open `PageIndex` parent and child section context.
    OpenParentChild,
    /// Compare source provenance before exposing a branch to an Agent.
    CompareProvenance,
    /// Open adjacent sections around the selected section candidate.
    OpenAdjacentSections,
    /// Stop the branch without executing a materialization route.
    Stop,
}

/// The kind of an action text: the trimmed text up to its first `:`, or the
/// whole trimmed text when it has none.
pub open spec fn probe_action_kind(action: Seq<char>) -> Seq<char> {
    let t = trim(action);
    if has_char(t, ':') {
        before_first(t, ':')
    } else {
        t
    }
}

/// The whitelisted action named by a kind.
pub open spec fn probe_action_named(kind: Seq<char>) -> Option<SearchStrategyFlowProbeAction> {
    if kind == "expand_neighbors"@ {
        Some(SearchStrategyFlowProbeAction::ExpandNeighbors)
    } else if kind == "open_parent_child"@ {
        Some(SearchStrategyFlowProbeAction::OpenParentChild)
    } else if kind == "compare_provenance"@ {
        Some(SearchStrategyFlowProbeAction::CompareProvenance)
    } else if kind == "open_adjacent_sections"@ {
        Some(SearchStrategyFlowProbeAction::OpenAdjacentSections)
    } else if kind == "stop"@ {
        Some(SearchStrategyFlowProbeAction::Stop)
    } else {
        None
    }
}

/// The message for an action kind outside the whitelist.
pub open spec fn probe_action_refusal(kind: Seq<char>) -> Seq<char> {
    "SearchStrategyFlow probe action `"@ + kind + "` is not whitelisted"@
}

/// The native Flight route that an action opens; `Stop` opens none.
pub open spec fn probe_action_route_of(action: SearchStrategyFlowProbeAction) -> Option<Seq<char>> {
    match action {
        SearchStrategyFlowProbeAction::ExpandNeighbors => Some("/graph/neighbors"@),
        SearchStrategyFlowProbeAction::OpenParentChild => Some(
            "/analysis/repo-projected-page-index-tree"@,
        ),
        SearchStrategyFlowProbeAction::CompareProvenance => Some("/search/repos/main"@),
        SearchStrategyFlowProbeAction::OpenAdjacentSections => Some(
            "/analysis/repo-projected-retrieval-context"@,
        ),
        SearchStrategyFlowProbeAction::Stop => None,
    }
}

/// The kind of an action text, computed.
fn probe_action_kind_vec(action: &str) -> (r: Vec<char>)
    ensures
        r@ == probe_action_kind(action@),
{
    let t = trim_vec(&chars_of(action));
    match split_once_vec(&t, ':') {
        Some((kind, _)) => kind,
        None => t,
    }
}

/// Parses one `SearchStrategyFlow` probe action accepted by Rust. The text is
/// trimmed and anything from its first `:` on is ignored; a kind outside the
/// whitelist is refused.
pub fn parse_search_strategy_flow_probe_action(action: &str) -> (r: Result<
    SearchStrategyFlowProbeAction,
    String,
>)
    ensures
        match r {
            Ok(a) => probe_action_named(probe_action_kind(action@)) == Some(a),
            Err(e) => probe_action_named(probe_action_kind(action@)) is None && e@
                == probe_action_refusal(probe_action_kind(action@)),
        },
{
    let kind = probe_action_kind_vec(action);
    if vec_eq(&kind, &lit("expand_neighbors")) {
        Ok(SearchStrategyFlowProbeAction::ExpandNeighbors)
    } else if vec_eq(&kind, &lit("open_parent_child")) {
        Ok(SearchStrategyFlowProbeAction::OpenParentChild)
    } else if vec_eq(&kind, &lit("compare_provenance")) {
        Ok(SearchStrategyFlowProbeAction::CompareProvenance)
    } else if vec_eq(&kind, &lit("open_adjacent_sections")) {
        Ok(SearchStrategyFlowProbeAction::OpenAdjacentSections)
    } else if vec_eq(&kind, &lit("stop")) {
        Ok(SearchStrategyFlowProbeAction::Stop)
    } else {
        let mut msg = "SearchStrategyFlow probe action `".to_owned();
        let k = string_of(&kind);
        msg.append(k.as_str());
        msg.append("` is not whitelisted");
        Err(msg)
    }
}

/// Returns the native Flight route family for one whitelisted probe action.
pub fn search_strategy_flow_probe_action_route(action: &str) -> (r: Result<
    Option<&'static str>,
    String,
>)
    ensures
        match r {
            Ok(route) => probe_action_named(probe_action_kind(action@)) matches Some(a) && match (
                route,
                probe_action_route_of(a),
            ) {
                (Some(x), Some(y)) => x@ == y,
                (None, None) => true,
                _ => false,
            },
            Err(e) => probe_action_named(probe_action_kind(action@)) is None && e@
                == probe_action_refusal(probe_action_kind(action@)),
        },
{
    match parse_search_strategy_flow_probe_action(action) {
        Ok(SearchStrategyFlowProbeAction::ExpandNeighbors) => Ok(Some("/graph/neighbors")),
        Ok(SearchStrategyFlowProbeAction::OpenParentChild) => Ok(
            Some("/analysis/repo-projected-page-index-tree"),
        ),
        Ok(SearchStrategyFlowProbeAction::CompareProvenance) => Ok(Some("/search/repos/main")),
        Ok(SearchStrategyFlowProbeAction::OpenAdjacentSections) => Ok(
            Some("/analysis/repo-projected-retrieval-context"),
        ),
        Ok(SearchStrategyFlowProbeAction::Stop) => Ok(None),
        Err(e) => Err(e),
    }
}

/// Refuses a blank `SearchStrategyFlow` intent.
pub fn validate_search_strategy_flow_intent(intent: &str) -> (r: Result<(), String>)
    ensures
        r is Ok <==> !is_blank(intent@),
        r matches Err(e) ==> e@ == "SearchStrategyFlow intent must not be blank"@,
{
    if is_blank_vec(&chars_of(intent)) {
        return Err("SearchStrategyFlow intent must not be blank".to_owned());
    }
    Ok(())
}

} // verus!
