//! Julia rerank runtime settings for link-graph compatibility: the values read
//! from Wendao settings, overridden by the process environment.
use vstd::prelude::*;
use crate::link_graph_launch::LinkGraphJuliaSearchServiceDescriptor;
use crate::probe_report::{parse_decimal, parse_decimal_u64};
use crate::text::{chars_of, is_blank, string_of, trim, trim_vec, vec_eq};

verus! {

/// Environment variable that overrides `link_graph.retrieval.julia_rerank.base_url`.
pub const LINK_GRAPH_JULIA_RERANK_BASE_URL_ENV: &'static str = "XIUXIAN_WENDAO_LINK_GRAPH_JULIA_RERANK_BASE_URL";

/// Environment variable that overrides `link_graph.retrieval.julia_rerank.route`.
pub const LINK_GRAPH_JULIA_RERANK_ROUTE_ENV: &'static str = "XIUXIAN_WENDAO_LINK_GRAPH_JULIA_RERANK_ROUTE";

/// Environment variable that overrides `link_graph.retrieval.julia_rerank.health_route`.
pub const LINK_GRAPH_JULIA_RERANK_HEALTH_ROUTE_ENV: &'static str = "XIUXIAN_WENDAO_LINK_GRAPH_JULIA_RERANK_HEALTH_ROUTE";

/// Environment variable that overrides `link_graph.retrieval.julia_rerank.schema_version`.
pub const LINK_GRAPH_JULIA_RERANK_SCHEMA_VERSION_ENV: &'static str = "XIUXIAN_WENDAO_LINK_GRAPH_JULIA_RERANK_SCHEMA_VERSION";

/// Environment variable that overrides `link_graph.retrieval.julia_rerank.timeout_secs`.
pub const LINK_GRAPH_JULIA_RERANK_TIMEOUT_SECS_ENV: &'static str = "XIUXIAN_WENDAO_LINK_GRAPH_JULIA_RERANK_TIMEOUT_SECS";

/// Environment variable that overrides `link_graph.retrieval.julia_rerank.service_mode`.
pub const LINK_GRAPH_JULIA_RERANK_SERVICE_MODE_ENV: &'static str = "XIUXIAN_WENDAO_LINK_GRAPH_JULIA_RERANK_SERVICE_MODE";

/// Environment variable that overrides `link_graph.retrieval.julia_rerank.search_config_path`.
pub const LINK_GRAPH_JULIA_RERANK_SEARCH_CONFIG_PATH_ENV: &'static str = "XIUXIAN_WENDAO_LINK_GRAPH_JULIA_RERANK_SEARCH_CONFIG_PATH";

/// Environment variable that overrides `link_graph.retrieval.julia_rerank.vector_weight`.
pub const LINK_GRAPH_JULIA_RERANK_VECTOR_WEIGHT_ENV: &'static str = "XIUXIAN_WENDAO_LINK_GRAPH_JULIA_RERANK_VECTOR_WEIGHT";

/// Environment variable that overrides `link_graph.retrieval.julia_rerank.similarity_weight`.
pub const LINK_GRAPH_JULIA_RERANK_SIMILARITY_WEIGHT_ENV: &'static str = "XIUXIAN_WENDAO_LINK_GRAPH_JULIA_RERANK_SIMILARITY_WEIGHT";

/// A Wendao settings document: YAML mappings down to scalar leaves.
#[derive(Debug)]
pub enum SettingValue {
    /// A mapping; a key that is not a string is `None`.
    Mapping(Vec<(Option<String>, SettingValue)>),
    /// A string scalar.
    Text(String),
    /// A number scalar, as it prints.
    Number(String),
    /// A boolean scalar.
    Bool(bool),
    /// Null, a sequence, or a tagged value.
    Other,
}

/// The value under a string key of a mapping: the first entry with that key.
pub open spec fn mapping_get(entries: Seq<(Option<String>, SettingValue)>, key: Seq<char>) -> Option<SettingValue>
    decreases entries.len(),
{
    if entries.len() == 0 {
        None
    } else if entries[0].0 matches Some(k) && k@ == key {
        Some(entries[0].1)
    } else {
        mapping_get(entries.drop_first(), key)
    }
}

/// The value at a path of keys, each looked up in a mapping.
pub open spec fn setting_at(node: SettingValue, path: Seq<Seq<char>>) -> Option<SettingValue>
    decreases path.len(),
{
    if path.len() == 0 {
        Some(node)
    } else {
        match node {
            SettingValue::Mapping(entries) => match mapping_get(entries@, path[0]) {
                Some(child) => setting_at(child, path.drop_first()),
                None => None,
            },
            _ => None,
        }
    }
}

/// A scalar as text: strings as they are, numbers as they print, booleans as
/// `true` or `false`.
pub open spec fn setting_text(v: SettingValue) -> Option<Seq<char>> {
    match v {
        SettingValue::Text(s) => Some(s@),
        SettingValue::Number(s) => Some(s@),
        SettingValue::Bool(b) => Some(if b { "true"@ } else { "false"@ }),
        _ => None,
    }
}

/// The text of the setting at a dotted key, when it is a scalar.
pub open spec fn setting_string(settings: SettingValue, dotted_key: Seq<char>) -> Option<Seq<char>> {
    match setting_at(settings, crate::text::split_char(dotted_key, '.')) {
        Some(v) => setting_text(v),
        None => None,
    }
}

fn mapping_get_exec<'a>(entries: &'a Vec<(Option<String>, SettingValue)>, key: &[char]) -> (r: Option<&'a SettingValue>)
    ensures
        match (r, mapping_get(entries@, key@)) {
            (Some(a), Some(b)) => *a == b,
            (None, None) => true,
            _ => false,
        },
{
    let mut i: usize = 0;
    assert(entries@.skip(0) =~= entries@);
    while i < entries.len()
        invariant
            i <= entries.len(),
            mapping_get(entries@, key@) == mapping_get(entries@.skip(i as int), key@),
        decreases entries.len() - i,
    {
        let ghost rest = entries@.skip(i as int);
        assert(rest[0] == entries@[i as int]);
        if let Some(k) = &entries[i].0 {
            if vec_eq(&chars_of(k.as_str()), key) {
                return Some(&entries[i].1);
            }
        }
        assert(rest.drop_first() =~= entries@.skip(i + 1));
        i = i + 1;
    }
    None
}

/// Reads the scalar setting at a dotted key as text.
pub fn get_setting_string(settings: &SettingValue, dotted_key: &str) -> (r: Option<String>)
    ensures
        match (r, setting_string(*settings, dotted_key@)) {
            (Some(a), Some(b)) => a@ == b,
            (None, None) => true,
            _ => false,
        },
{
    let key_chars = chars_of(dotted_key);
    let path = crate::text::split_char_vec(&key_chars, '.');
    let ghost pv = crate::text::seqs_of(path@);
    assert(pv == crate::text::split_char(dotted_key@, '.'));
    let mut cursor = settings;
    let mut i: usize = 0;
    assert(pv.skip(0) =~= pv);
    while i < path.len()
        invariant
            i <= path.len(),
            pv == crate::text::seqs_of(path@),
            pv == crate::text::split_char(dotted_key@, '.'),
            setting_at(*settings, pv) == setting_at(*cursor, pv.skip(i as int)),
        decreases path.len() - i,
    {
        let ghost rest = pv.skip(i as int);
        assert(rest[0] == path@[i as int]@);
        assert(rest.drop_first() =~= pv.skip(i + 1));
        match cursor {
            SettingValue::Mapping(entries) => match mapping_get_exec(entries, &path[i]) {
                Some(child) => {
                    cursor = child;
                },
                None => {
                    return None;
                },
            },
            _ => {
                return None;
            },
        }
        i = i + 1;
    }
    assert(pv.skip(i as int).len() == 0);
    match cursor {
        SettingValue::Text(s) => Some(string_of(&chars_of(s.as_str()))),
        SettingValue::Number(s) => Some(string_of(&chars_of(s.as_str()))),
        SettingValue::Bool(b) => if *b {
            Some("true".to_owned())
        } else {
            Some("false".to_owned())
        },
        _ => None,
    }
}

/// The first present value that is not blank, trimmed.
pub open spec fn first_non_empty_spec(values: Seq<Option<String>>) -> Option<Seq<char>>
    decreases values.len(),
{
    if values.len() == 0 {
        None
    } else if values[0] matches Some(v) && !is_blank(v@) {
        Some(trim(values[0]->0@))
    } else {
        first_non_empty_spec(values.drop_first())
    }
}

/// Returns the first present value that is not blank, trimmed.
pub fn first_non_empty(values: &Vec<Option<String>>) -> (r: Option<String>)
    ensures
        match (r, first_non_empty_spec(values@)) {
            (Some(a), Some(b)) => a@ == b,
            (None, None) => true,
            _ => false,
        },
{
    let mut i: usize = 0;
    assert(values@.skip(0) =~= values@);
    while i < values.len()
        invariant
            i <= values.len(),
            first_non_empty_spec(values@) == first_non_empty_spec(values@.skip(i as int)),
        decreases values.len() - i,
    {
        let ghost rest = values@.skip(i as int);
        assert(rest[0] == values@[i as int]);
        if let Some(v) = &values[i] {
            let t = trim_vec(&chars_of(v.as_str()));
            if t.len() > 0 {
                return Some(string_of(&t));
            }
        }
        assert(rest.drop_first() =~= values@.skip(i + 1));
        i = i + 1;
    }
    None
}

/// A positive `u64` in trimmed text.
pub open spec fn positive_u64_of(raw: Seq<char>) -> Option<u64> {
    match parse_decimal(trim(raw), u64::MAX as int) {
        Ok(n) => if n > 0 {
            Some(n as u64)
        } else {
            None
        },
        Err(_) => None,
    }
}

/// Parses a positive `u64` from trimmed text; zero and malformed text give `None`.
pub fn parse_positive_u64(raw: &str) -> (r: Option<u64>)
    ensures
        r == positive_u64_of(raw@),
{
    let t = trim_vec(&chars_of(raw));
    match parse_decimal_u64(&t) {
        Ok(n) => if n > 0 {
            Some(n)
        } else {
            None
        },
        Err(_) => None,
    }
}

/// The environment values that can override the settings, one per variable.
#[derive(Clone, Debug, PartialEq, Eq)]
pub struct LinkGraphJuliaRerankEnvironment {
    /// Value of `LINK_GRAPH_JULIA_RERANK_BASE_URL_ENV`.
    pub base_url: Option<String>,
    /// Value of `LINK_GRAPH_JULIA_RERANK_ROUTE_ENV`.
    pub route: Option<String>,
    /// Value of `LINK_GRAPH_JULIA_RERANK_HEALTH_ROUTE_ENV`.
    pub health_route: Option<String>,
    /// Value of `LINK_GRAPH_JULIA_RERANK_SCHEMA_VERSION_ENV`.
    pub schema_version: Option<String>,
    /// Value of `LINK_GRAPH_JULIA_RERANK_TIMEOUT_SECS_ENV`.
    pub timeout_secs: Option<String>,
    /// Value of `LINK_GRAPH_JULIA_RERANK_SERVICE_MODE_ENV`.
    pub service_mode: Option<String>,
    /// Value of `LINK_GRAPH_JULIA_RERANK_SEARCH_CONFIG_PATH_ENV`.
    pub search_config_path: Option<String>,
}

/// Runtime knobs for remote Julia rerank over Arrow Flight.
#[derive(Clone, Debug, PartialEq, Eq)]
pub struct LinkGraphJuliaRerankRuntimeConfig {
    /// Base URL for the WendaoArrow-compatible Julia service.
    pub base_url: Option<String>,
    /// Arrow Flight request route.
    pub route: Option<String>,
    /// Health-check route.
    pub health_route: Option<String>,
    /// `WendaoArrow` schema version expected by the runtime.
    pub schema_version: Option<String>,
    /// Request timeout in seconds.
    pub timeout_secs: Option<u64>,
    /// Generic search service mode.
    pub service_mode: Option<String>,
    /// Path to the Julia service TOML configuration.
    pub search_config_path: Option<String>,
}

/// A present text that is not blank, trimmed.
pub open spec fn non_blank_trimmed(v: Option<Seq<char>>) -> Option<Seq<char>> {
    match v {
        Some(t) => if !is_blank(t) {
            Some(trim(t))
        } else {
            None
        },
        None => None,
    }
}

/// The resolution of one setting: the environment value, which overrides
/// the settings key, when it is not blank; else the setting when it is not
/// blank; trimmed.
pub open spec fn resolved_setting(settings: SettingValue, dotted_key: Seq<char>, env: Option<String>) -> Option<Seq<char>> {
    let from_env = match env {
        Some(e) => Some(e@),
        None => None,
    };
    match non_blank_trimmed(from_env) {
        Some(e) => Some(e),
        None => non_blank_trimmed(setting_string(settings, dotted_key)),
    }
}

/// An optional string holds the given optional text.
pub open spec fn holds(field: Option<String>, v: Option<Seq<char>>) -> bool {
    match (field, v) {
        (Some(a), Some(b)) => a@ == b,
        (None, None) => true,
        _ => false,
    }
}

fn resolve_optional_string(settings: &SettingValue, dotted_key: &str, env: &Option<String>) -> (r: Option<String>)
    ensures
        holds(r, resolved_setting(*settings, dotted_key@, *env)),
{
    let from_settings = get_setting_string(settings, dotted_key);
    let ghost fs = from_settings;
    let from_env = env.clone();
    assert(from_env == *env);
    let ghost fe = from_env;
    let mut values: Vec<Option<String>> = Vec::new();
    values.push(from_env);
    values.push(from_settings);
    let r = first_non_empty(&values);
    proof {
        let v = values@;
        assert(v[0] == fe && v[1] == fs);
        assert(v.drop_first()[0] == fs);
        assert(v.drop_first().drop_first() =~= Seq::<Option<String>>::empty());
        assert(first_non_empty_spec(v.drop_first().drop_first()) == None::<Seq<char>>);
        let tail = first_non_empty_spec(v.drop_first());
        match fs {
            Some(a) => {
                assert(setting_string(*settings, dotted_key@) == Some(a@));
            },
            None => {
                assert(setting_string(*settings, dotted_key@) == None::<Seq<char>>);
            },
        }
        match fe {
            Some(e) => {
                if is_blank(e@) {
                    assert(first_non_empty_spec(v) == tail);
                }
            },
            None => {
                assert(first_non_empty_spec(v) == tail);
            },
        }
    }
    r
}

/// Resolves the Julia rerank runtime config from Wendao settings and the
/// environment values that override them: each key takes its environment
/// value when that is not blank, else its setting; the timeout must be a
/// positive integer.
pub fn resolve_with_env_lookup(settings: &SettingValue, env: &LinkGraphJuliaRerankEnvironment) -> (r: LinkGraphJuliaRerankRuntimeConfig)
    ensures
        holds(r.base_url, resolved_setting(*settings, "link_graph.retrieval.julia_rerank.base_url"@, env.base_url)),
        holds(r.route, resolved_setting(*settings, "link_graph.retrieval.julia_rerank.route"@, env.route)),
        holds(r.health_route, resolved_setting(*settings, "link_graph.retrieval.julia_rerank.health_route"@, env.health_route)),
        holds(r.schema_version, resolved_setting(*settings, "link_graph.retrieval.julia_rerank.schema_version"@, env.schema_version)),
        r.timeout_secs == match resolved_setting(*settings, "link_graph.retrieval.julia_rerank.timeout_secs"@, env.timeout_secs) {
            Some(t) => positive_u64_of(t),
            None => None,
        },
        holds(r.service_mode, resolved_setting(*settings, "link_graph.retrieval.julia_rerank.service_mode"@, env.service_mode)),
        holds(r.search_config_path, resolved_setting(*settings, "link_graph.retrieval.julia_rerank.search_config_path"@, env.search_config_path)),
{
    let timeout = resolve_optional_string(settings, "link_graph.retrieval.julia_rerank.timeout_secs", &env.timeout_secs);
    LinkGraphJuliaRerankRuntimeConfig {
        base_url: resolve_optional_string(settings, "link_graph.retrieval.julia_rerank.base_url", &env.base_url),
        route: resolve_optional_string(settings, "link_graph.retrieval.julia_rerank.route", &env.route),
        health_route: resolve_optional_string(settings, "link_graph.retrieval.julia_rerank.health_route", &env.health_route),
        schema_version: resolve_optional_string(settings, "link_graph.retrieval.julia_rerank.schema_version", &env.schema_version),
        timeout_secs: match &timeout {
            Some(t) => parse_positive_u64(t.as_str()),
            None => None,
        },
        service_mode: resolve_optional_string(settings, "link_graph.retrieval.julia_rerank.service_mode", &env.service_mode),
        search_config_path: resolve_optional_string(settings, "link_graph.retrieval.julia_rerank.search_config_path", &env.search_config_path),
    }
}

impl LinkGraphJuliaRerankRuntimeConfig {
    /// Whether the runtime carries any configured provider input.
    pub fn is_configured(&self) -> (r: bool)
        ensures
            r == (self.base_url is Some || self.route is Some || self.health_route is Some
                || self.schema_version is Some || self.timeout_secs is Some || self.service_mode is Some
                || self.search_config_path is Some),
    {
        self.base_url.is_some() || self.route.is_some() || self.health_route.is_some()
            || self.schema_version.is_some() || self.timeout_secs.is_some() || self.service_mode.is_some()
            || self.search_config_path.is_some()
    }

    /// The provider-owned launch inputs of this runtime.
    pub fn provider_launch_descriptor(&self) -> (r: LinkGraphJuliaSearchServiceDescriptor)
        ensures
            r.service_mode == self.service_mode,
            r.search_config_path == self.search_config_path,
    {
        LinkGraphJuliaSearchServiceDescriptor {
            service_mode: self.service_mode.clone(),
            search_config_path: self.search_config_path.clone(),
        }
    }

    /// The contract version of the rerank binding: the schema version, or `v1`.
    pub fn contract_version(&self) -> (r: String)
        ensures
            r@ == match self.schema_version {
                Some(v) => v@,
                None => "v1"@,
            },
    {
        match &self.schema_version {
            Some(v) => string_of(&chars_of(v.as_str())),
            None => "v1".to_owned(),
        }
    }
}

} // verus!
