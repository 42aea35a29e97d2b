//! Request contract of the `WendaoGraph` ontology read-model quality service.
use vstd::prelude::*;
use crate::text::{chars_of, is_blank, string_of, trim, trim_vec};

verus! {

/// `WendaoGraph` service name for ontology read-model quality scoring.
pub const WENDAO_GRAPH_ONTOLOGY_READ_MODEL_QUALITY_SERVICE: &'static str = "wendao.graph.v1.OntologyReadModelQuality";

/// `WendaoGraph` service method for ontology read-model quality scoring.
pub const WENDAO_GRAPH_ONTOLOGY_READ_MODEL_QUALITY_METHOD: &'static str = "RunOntologyReadModelQuality";

/// `WendaoGraph` ontology read-model quality service schema version.
pub const WENDAO_GRAPH_ONTOLOGY_READ_MODEL_QUALITY_SCHEMA_VERSION: &'static str = "xiuxian_wendao.graph.ontology_read_model_quality.service.v1";

/// MIME type used by the `WendaoGraph` ontology read-model quality Arrow IPC service.
pub const WENDAO_GRAPH_ONTOLOGY_READ_MODEL_QUALITY_ARROW_IPC_MIME: &'static str = "application/vnd.apache.arrow.stream";

/// Canonical route form used by runtime Flight transport negotiation.
pub const WENDAO_GRAPH_ONTOLOGY_READ_MODEL_QUALITY_ROUTE: &'static str = "/wendao/graph/ontology_read_model_quality";

/// Stable provider id for the `WendaoGraph` ontology read-model quality service.
pub const WENDAO_GRAPH_ONTOLOGY_READ_MODEL_QUALITY_PROVIDER_ID: &'static str = "wendaograph";

/// Stable capability id for the `WendaoGraph` ontology read-model quality service.
pub const WENDAO_GRAPH_ONTOLOGY_READ_MODEL_QUALITY_CAPABILITY_ID: &'static str = "ontology-read-model-quality";

/// Single request table name used to bundle the three read-model Arrow payloads over Flight.
pub const WENDAO_GRAPH_ONTOLOGY_READ_MODEL_QUALITY_REQUEST_BUNDLE_TABLE: &'static str = "ontology_read_model_quality_request";

/// Response table name returned by the `WendaoGraph` ontology read-model quality service.
pub const WENDAO_GRAPH_ONTOLOGY_READ_MODEL_QUALITY_RESPONSE_TABLE: &'static str = "ontology_quality_rows";

/// Bundle column containing the `semantic_objects` Arrow IPC payload.
pub const WENDAO_GRAPH_ONTOLOGY_SEMANTIC_OBJECTS_PAYLOAD_COLUMN: &'static str = "semantic_objects_payload";

/// Bundle column containing the `semantic_relations` Arrow IPC payload.
pub const WENDAO_GRAPH_ONTOLOGY_SEMANTIC_RELATIONS_PAYLOAD_COLUMN: &'static str = "semantic_relations_payload";

/// Bundle column containing the `semantic_projection_state` Arrow IPC payload.
pub const WENDAO_GRAPH_ONTOLOGY_SEMANTIC_PROJECTION_STATE_PAYLOAD_COLUMN: &'static str = "semantic_projection_state_payload";

/// Arrow IPC request payloads for the `WendaoGraph` ontology quality service.
#[derive(Clone, Debug, PartialEq, Eq)]
pub struct WendaoGraphOntologyReadModelQualityArrowRequest {
    /// Service schema version expected by `WendaoGraph`.
    pub schema_version: &'static str,
    /// Request MIME type for every payload.
    pub request_mime_type: &'static str,
    /// Response MIME type expected from `WendaoGraph`.
    pub response_mime_type: &'static str,
    /// Request table names in payload order.
    pub request_tables: [&'static str; 3],
    /// Response table name expected from `WendaoGraph`.
    pub response_table: &'static str,
    /// Arrow IPC stream for `semantic_objects`.
    pub semantic_objects_payload: Vec<u8>,
    /// Arrow IPC stream for `semantic_relations`.
    pub semantic_relations_payload: Vec<u8>,
    /// Arrow IPC stream for `semantic_projection_state`.
    pub semantic_projection_state_payload: Vec<u8>,
}

impl WendaoGraphOntologyReadModelQualityArrowRequest {
    /// The request around three encoded read-model tables, with the service's
    /// schema version, MIME types and table names.
    pub fn from_encoded_tables(
        semantic_objects_payload: Vec<u8>,
        semantic_relations_payload: Vec<u8>,
        semantic_projection_state_payload: Vec<u8>,
    ) -> (r: Self)
        ensures
            r.schema_version@ == WENDAO_GRAPH_ONTOLOGY_READ_MODEL_QUALITY_SCHEMA_VERSION@,
            r.request_mime_type@ == WENDAO_GRAPH_ONTOLOGY_READ_MODEL_QUALITY_ARROW_IPC_MIME@,
            r.response_mime_type@ == WENDAO_GRAPH_ONTOLOGY_READ_MODEL_QUALITY_ARROW_IPC_MIME@,
            r.request_tables[0]@ == "semantic_objects"@,
            r.request_tables[1]@ == "semantic_relations"@,
            r.request_tables[2]@ == "semantic_projection_state"@,
            r.response_table@ == WENDAO_GRAPH_ONTOLOGY_READ_MODEL_QUALITY_RESPONSE_TABLE@,
            r.semantic_objects_payload == semantic_objects_payload,
            r.semantic_relations_payload == semantic_relations_payload,
            r.semantic_projection_state_payload == semantic_projection_state_payload,
    {
        Self {
            schema_version: WENDAO_GRAPH_ONTOLOGY_READ_MODEL_QUALITY_SCHEMA_VERSION,
            request_mime_type: WENDAO_GRAPH_ONTOLOGY_READ_MODEL_QUALITY_ARROW_IPC_MIME,
            response_mime_type: WENDAO_GRAPH_ONTOLOGY_READ_MODEL_QUALITY_ARROW_IPC_MIME,
            request_tables: ["semantic_objects", "semantic_relations", "semantic_projection_state"],
            response_table: WENDAO_GRAPH_ONTOLOGY_READ_MODEL_QUALITY_RESPONSE_TABLE,
            semantic_objects_payload,
            semantic_relations_payload,
            semantic_projection_state_payload,
        }
    }

    /// Returns the encoded payload byte sizes in service request order.
    pub fn payload_byte_sizes(&self) -> (r: [usize; 3])
        ensures
            r[0] == self.semantic_objects_payload@.len(),
            r[1] == self.semantic_relations_payload@.len(),
            r[2] == self.semantic_projection_state_payload@.len(),
    {
        [
            self.semantic_objects_payload.len(),
            self.semantic_relations_payload.len(),
            self.semantic_projection_state_payload.len(),
        ]
    }
}

/// Runtime binding options for the `WendaoGraph` ontology quality Flight route.
#[derive(Clone, Debug, PartialEq, Eq)]
pub struct WendaoGraphOntologyReadModelQualityFlightBindingOptions {
    /// Flight service base URL, for example `http://127.0.0.1:41082`.
    pub base_url: String,
    /// Optional health route for service readiness probes.
    pub health_route: Option<String>,
    /// Optional request timeout in seconds.
    pub timeout_secs: Option<u64>,
    /// Optional maximum in-flight requests for one transport client.
    pub max_in_flight_requests: Option<u64>,
}

/// One runtime-negotiable Arrow Flight binding of the ontology quality service.
#[derive(Clone, Debug, PartialEq, Eq)]
pub struct WendaoGraphOntologyReadModelQualityFlightBinding {
    /// Capability id of the selector.
    pub capability_id: &'static str,
    /// Provider id of the selector.
    pub provider_id: &'static str,
    /// Trimmed Flight service base URL.
    pub base_url: String,
    /// Flight route of the service.
    pub route: &'static str,
    /// Optional health route for service readiness probes.
    pub health_route: Option<String>,
    /// Optional request timeout in seconds.
    pub timeout_secs: Option<u64>,
    /// Optional maximum in-flight requests for one transport client.
    pub max_in_flight_requests: Option<u64>,
    /// Contract version: the service schema version.
    pub contract_version: &'static str,
}

/// Builds one runtime-negotiable Arrow Flight binding for ontology quality
/// scoring; a blank base URL is refused.
pub fn build_wendaograph_ontology_read_model_quality_flight_binding(
    options: WendaoGraphOntologyReadModelQualityFlightBindingOptions,
) -> (r: Result<WendaoGraphOntologyReadModelQualityFlightBinding, String>)
    ensures
        match r {
            Ok(b) => {
                &&& !is_blank(options.base_url@)
                &&& b.base_url@ == trim(options.base_url@)
                &&& b.capability_id@ == WENDAO_GRAPH_ONTOLOGY_READ_MODEL_QUALITY_CAPABILITY_ID@
                &&& b.provider_id@ == WENDAO_GRAPH_ONTOLOGY_READ_MODEL_QUALITY_PROVIDER_ID@
                &&& b.route@ == WENDAO_GRAPH_ONTOLOGY_READ_MODEL_QUALITY_ROUTE@
                &&& b.health_route == options.health_route
                &&& b.timeout_secs == options.timeout_secs
                &&& b.max_in_flight_requests == options.max_in_flight_requests
                &&& b.contract_version@ == WENDAO_GRAPH_ONTOLOGY_READ_MODEL_QUALITY_SCHEMA_VERSION@
            },
            Err(e) => is_blank(options.base_url@) && e@
                == "WendaoGraph ontology quality Flight base URL must not be blank"@,
        },
{
    let base_url = trim_vec(&chars_of(options.base_url.as_str()));
    if base_url.len() == 0 {
        return Err("WendaoGraph ontology quality Flight base URL must not be blank".to_owned());
    }
    Ok(WendaoGraphOntologyReadModelQualityFlightBinding {
        capability_id: WENDAO_GRAPH_ONTOLOGY_READ_MODEL_QUALITY_CAPABILITY_ID,
        provider_id: WENDAO_GRAPH_ONTOLOGY_READ_MODEL_QUALITY_PROVIDER_ID,
        base_url: string_of(&base_url),
        route: WENDAO_GRAPH_ONTOLOGY_READ_MODEL_QUALITY_ROUTE,
        health_route: options.health_route,
        timeout_secs: options.timeout_secs,
        max_in_flight_requests: options.max_in_flight_requests,
        contract_version: WENDAO_GRAPH_ONTOLOGY_READ_MODEL_QUALITY_SCHEMA_VERSION,
    })
}

} // verus!
