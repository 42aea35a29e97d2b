//! Arrow IPC request bundles for the `WendaoGraph` `SearchStrategyFlow` service.
use vstd::prelude::*;

verus! {

/// Candidate batch passed from Rust discovery into `SearchStrategyFlow`.
#[derive(Clone, Debug, PartialEq, Eq)]
pub struct SearchStrategyFlowCandidateInputBatch {
    /// Which discovery produced the candidates.
    pub source: String,
    /// Number of candidate rows.
    pub row_count: usize,
    /// Arrow IPC stream of the candidate rows.
    pub candidate_input_arrow_ipc_stream: Vec<u8>,
    /// JSON receipt of the discovery run.
    pub discovery_receipt_json: String,
}

impl SearchStrategyFlowCandidateInputBatch {
    /// Size of the candidate Arrow IPC stream in bytes.
    pub fn candidate_input_arrow_ipc_byte_len(&self) -> (r: usize)
        ensures
            r == self.candidate_input_arrow_ipc_stream@.len(),
    {
        self.candidate_input_arrow_ipc_stream.len()
    }
}

/// Optional Arrow IPC side-table payloads for one `SearchStrategyFlow` service request.
#[derive(Clone, Debug, PartialEq, Eq)]
pub struct SearchStrategyFlowServiceRequestOptions {
    /// Arrow IPC stream for precomputed query-understanding rows.
    pub query_understanding: Option<Vec<u8>>,
    /// Arrow IPC stream for ontology registry rows.
    pub ontology_registry: Option<Vec<u8>>,
    /// Arrow IPC stream for branch judgement rows.
    pub branch_judgements: Option<Vec<u8>>,
}

impl SearchStrategyFlowServiceRequestOptions {
    /// Options with no side table.
    pub fn new() -> (r: Self)
        ensures
            r.query_understanding is None,
            r.ontology_registry is None,
            r.branch_judgements is None,
    {
        Self { query_understanding: None, ontology_registry: None, branch_judgements: None }
    }

    /// Returns options with query-understanding Arrow IPC rows.
    pub fn with_query_understanding_arrow_ipc_stream(self, payload: Vec<u8>) -> (r: Self)
        ensures
            r.query_understanding == Some(payload),
            r.ontology_registry == self.ontology_registry,
            r.branch_judgements == self.branch_judgements,
    {
        let mut s = self;
        s.query_understanding = Some(payload);
        s
    }

    /// Returns options with ontology-registry Arrow IPC rows.
    pub fn with_ontology_registry_arrow_ipc_stream(self, payload: Vec<u8>) -> (r: Self)
        ensures
            r.query_understanding == self.query_understanding,
            r.ontology_registry == Some(payload),
            r.branch_judgements == self.branch_judgements,
    {
        let mut s = self;
        s.ontology_registry = Some(payload);
        s
    }

    /// Returns options with branch-judgement Arrow IPC rows.
    pub fn with_branch_judgements_arrow_ipc_stream(self, payload: Vec<u8>) -> (r: Self)
        ensures
            r.query_understanding == self.query_understanding,
            r.ontology_registry == self.ontology_registry,
            r.branch_judgements == Some(payload),
    {
        let mut s = self;
        s.branch_judgements = Some(payload);
        s
    }
}

/// Arrow IPC payload bundle for one `SearchStrategyFlow` service request.
#[derive(Clone, Debug, PartialEq, Eq)]
pub struct SearchStrategyFlowServiceArrowRequest {
    /// Arrow IPC stream for `strategy_candidates`.
    pub strategy_candidates_payload: Vec<u8>,
    /// Optional Arrow IPC stream for `query_understanding`.
    pub query_understanding_payload: Option<Vec<u8>>,
    /// Optional Arrow IPC stream for `ontology_registry`.
    pub ontology_registry_payload: Option<Vec<u8>>,
    /// Optional Arrow IPC stream for `branch_judgements`.
    pub branch_judgements_payload: Option<Vec<u8>>,
}

/// Length of an optional payload, zero when absent.
pub open spec fn optional_len_spec(payload: Option<Vec<u8>>) -> nat {
    match payload {
        Some(bytes) => bytes@.len(),
        None => 0,
    }
}

pub fn optional_len(payload: Option<&Vec<u8>>) -> (r: usize)
    ensures
        r == match payload {
            Some(bytes) => bytes@.len(),
            None => 0,
        },
{
    match payload {
        Some(bytes) => bytes.len(),
        None => 0,
    }
}

impl SearchStrategyFlowServiceArrowRequest {
    /// Total bytes of all present payloads.
    pub open spec fn payload_bytes(&self) -> nat {
        self.strategy_candidates_payload@.len() + optional_len_spec(self.query_understanding_payload)
            + optional_len_spec(self.ontology_registry_payload) + optional_len_spec(
            self.branch_judgements_payload,
        )
    }

    /// Returns the total encoded payload bytes for scheduling and admission estimates.
    pub fn payload_byte_size(&self) -> (r: usize)
        requires
            self.payload_bytes() <= usize::MAX,
        ensures
            r == self.payload_bytes(),
    {
        self.strategy_candidates_payload.len() + optional_len(
            self.query_understanding_payload.as_ref(),
        ) + optional_len(self.ontology_registry_payload.as_ref()) + optional_len(
            self.branch_judgements_payload.as_ref(),
        )
    }
}

/// An optional side table, when present, must hold bytes.
pub open spec fn optional_payload_ok(payload: Option<Vec<u8>>) -> bool {
    match payload {
        Some(bytes) => bytes@.len() > 0,
        None => true,
    }
}

/// Refuses a present but empty side-table payload.
pub fn validate_optional_payload(label: &str, payload: Option<&Vec<u8>>) -> (r: Result<(), String>)
    ensures
        r is Ok <==> match payload {
            Some(bytes) => bytes@.len() > 0,
            None => true,
        },
        r matches Err(e) ==> e@ == "SearchStrategyFlow optional `"@ + label@
            + "` Arrow IPC payload must not be empty"@,
{
    match payload {
        Some(bytes) => {
            if bytes.len() == 0 {
                let mut msg = "SearchStrategyFlow optional `".to_owned();
                msg.append(label);
                msg.append("` Arrow IPC payload must not be empty");
                return Err(msg);
            }
            Ok(())
        },
        None => Ok(()),
    }
}

/// The request bundle built from a candidate batch and side-table options:
/// the candidate payload is not empty, every present side table holds
/// bytes, and the bundle carries all of them unchanged.
pub open spec fn built_request(
    candidate_batch: SearchStrategyFlowCandidateInputBatch,
    options: SearchStrategyFlowServiceRequestOptions,
    req: SearchStrategyFlowServiceArrowRequest,
) -> bool {
    &&& candidate_batch.candidate_input_arrow_ipc_stream@.len() > 0
    &&& optional_payload_ok(options.query_understanding)
    &&& optional_payload_ok(options.ontology_registry)
    &&& optional_payload_ok(options.branch_judgements)
    &&& req.strategy_candidates_payload@ == candidate_batch.candidate_input_arrow_ipc_stream@
    &&& req.query_understanding_payload == options.query_understanding
    &&& req.ontology_registry_payload == options.ontology_registry
    &&& req.branch_judgements_payload == options.branch_judgements
}

/// A built request's size is its candidate payload plus every present side
/// table, and it is at least one byte.
pub proof fn lemma_built_request_payload_bytes(
    candidate_batch: SearchStrategyFlowCandidateInputBatch,
    options: SearchStrategyFlowServiceRequestOptions,
    req: SearchStrategyFlowServiceArrowRequest,
)
    requires
        built_request(candidate_batch, options, req),
    ensures
        req.payload_bytes() == candidate_batch.candidate_input_arrow_ipc_stream@.len()
            + optional_len_spec(options.query_understanding) + optional_len_spec(options.ontology_registry)
            + optional_len_spec(options.branch_judgements),
        req.payload_bytes() >= 1,
{
}

/// Builds the Arrow IPC payload bundle for the `SearchStrategyFlow` Flight service.
pub fn build_search_strategy_flow_service_arrow_request(
    candidate_batch: &SearchStrategyFlowCandidateInputBatch,
    options: SearchStrategyFlowServiceRequestOptions,
) -> (r: Result<SearchStrategyFlowServiceArrowRequest, String>)
    ensures
        match r {
            Ok(req) => built_request(*candidate_batch, options, req),
            Err(e) => if candidate_batch.candidate_input_arrow_ipc_stream@.len() == 0 {
                e@ == "SearchStrategyFlow candidate Arrow IPC payload must not be empty"@
            } else if !optional_payload_ok(options.query_understanding) {
                e@ == "SearchStrategyFlow optional `query_understanding` Arrow IPC payload must not be empty"@
            } else if !optional_payload_ok(options.ontology_registry) {
                e@ == "SearchStrategyFlow optional `ontology_registry` Arrow IPC payload must not be empty"@
            } else {
                !optional_payload_ok(options.branch_judgements)
                    && e@ == "SearchStrategyFlow optional `branch_judgements` Arrow IPC payload must not be empty"@
            },
        },
{
    if candidate_batch.candidate_input_arrow_ipc_stream.len() == 0 {
        return Err("SearchStrategyFlow candidate Arrow IPC payload must not be empty".to_owned());
    }
    match validate_optional_payload("query_understanding", options.query_understanding.as_ref()) {
        Err(e) => {
            proof {
                reveal_strlit("SearchStrategyFlow optional `");
                reveal_strlit("query_understanding");
                reveal_strlit("` Arrow IPC payload must not be empty");
                reveal_strlit(
                    "SearchStrategyFlow optional `query_understanding` Arrow IPC payload must not be empty",
                );
                assert(e@ =~= "SearchStrategyFlow optional `query_understanding` Arrow IPC payload must not be empty"@);
            }
            return Err(e);
        },
        Ok(()) => {},
    }
    match validate_optional_payload("ontology_registry", options.ontology_registry.as_ref()) {
        Err(e) => {
            proof {
                reveal_strlit("SearchStrategyFlow optional `");
                reveal_strlit("ontology_registry");
                reveal_strlit("` Arrow IPC payload must not be empty");
                reveal_strlit(
                    "SearchStrategyFlow optional `ontology_registry` Arrow IPC payload must not be empty",
                );
                assert(e@ =~= "SearchStrategyFlow optional `ontology_registry` Arrow IPC payload must not be empty"@);
            }
            return Err(e);
        },
        Ok(()) => {},
    }
    match validate_optional_payload("branch_judgements", options.branch_judgements.as_ref()) {
        Err(e) => {
            proof {
                reveal_strlit("SearchStrategyFlow optional `");
                reveal_strlit("branch_judgements");
                reveal_strlit("` Arrow IPC payload must not be empty");
                reveal_strlit(
                    "SearchStrategyFlow optional `branch_judgements` Arrow IPC payload must not be empty",
                );
                assert(e@ =~= "SearchStrategyFlow optional `branch_judgements` Arrow IPC payload must not be empty"@);
            }
            return Err(e);
        },
        Ok(()) => {},
    }
    let strategy_candidates_payload = candidate_batch.candidate_input_arrow_ipc_stream.clone();
    Ok(SearchStrategyFlowServiceArrowRequest {
        strategy_candidates_payload,
        query_understanding_payload: options.query_understanding,
        ontology_registry_payload: options.ontology_registry,
        branch_judgements_payload: options.branch_judgements,
    })
}

} // verus!
