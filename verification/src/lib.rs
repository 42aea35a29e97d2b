//! Verified text, path and query logic for the Julia-backed `WendaoSearch` bridge.
pub mod flight_ids;
pub mod flight_query;
pub mod text;
pub mod flight_config;
pub mod flight_request;
pub mod reports;
pub mod gateway_artifact;
pub mod link_graph_launch;
pub mod probe_actions;
pub mod trace_routes;
pub mod ontology_request;
pub mod probe_report;
pub mod ordered;
pub mod markdown_candidates;
pub mod candidate_routes;
pub mod candidate_inputs;
pub mod link_graph_settings;
pub mod frontier_buckets;
pub mod semantic_tables;
pub mod repo_discovery;
pub mod host_replies;
pub mod structured_index;
pub mod registry_authority;
pub mod route_materialization;
pub mod service_trace;
pub mod code_inventory;
pub mod repo_search_discovery;
pub mod ontology_registry;
