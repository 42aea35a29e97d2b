//! Launch manifests for Julia-backed link-graph compatibility services.
use vstd::prelude::*;

verus! {

/// Additive Julia launch inputs resolved from Julia rerank runtime config.
#[derive(Clone, Debug, PartialEq, Eq)]
pub struct LinkGraphJuliaSearchServiceDescriptor {
    /// Generic search service mode, usually `stream` or `table`.
    pub service_mode: Option<String>,
    /// Optional path to Julia service TOML configuration.
    pub search_config_path: Option<String>,
}

/// Resolved Julia service launch manifest derived from runtime configuration.
#[derive(Clone, Debug, PartialEq, Eq)]
pub struct LinkGraphJuliaSearchLaunchManifest {
    /// Launcher path relative to the repository root.
    pub launcher_path: String,
    /// Ordered search-service CLI args.
    pub args: Vec<String>,
}

/// The service CLI args: `--mode <mode>` when a mode is set, then
/// `--config <path>` when a config path is set.
pub open spec fn launch_args(service_mode: Option<String>, search_config_path: Option<String>) -> Seq<
    Seq<char>,
> {
    (match service_mode {
        Some(m) => seq!["--mode"@, m@],
        None => Seq::empty(),
    }) + (match search_config_path {
        Some(p) => seq!["--config"@, p@],
        None => Seq::empty(),
    })
}

impl LinkGraphJuliaSearchServiceDescriptor {
    /// Builds the launch manifest using the `WendaoSearch` service CLI arg mapping.
    pub fn plugin_launch_spec(&self, launcher_path: String) -> (r: LinkGraphJuliaSearchLaunchManifest)
        ensures
            r.launcher_path@ == launcher_path@,
            r.args.deep_view() == launch_args(self.service_mode, self.search_config_path),
    {
        let mut args: Vec<String> = Vec::new();
        if let Some(service_mode) = &self.service_mode {
            args.push("--mode".to_owned());
            args.push(service_mode.clone());
        }
        let ghost mid = args.deep_view();
        if let Some(config_path) = &self.search_config_path {
            args.push("--config".to_owned());
            args.push(config_path.clone());
        }
        proof {
            let m: Seq<Seq<char>> = match &self.service_mode {
                Some(m) => seq!["--mode"@, m@],
                None => Seq::empty(),
            };
            let c: Seq<Seq<char>> = match &self.search_config_path {
                Some(p) => seq!["--config"@, p@],
                None => Seq::empty(),
            };
            assert(mid =~= m);
            assert(args.deep_view() =~= m + c);
        }
        LinkGraphJuliaSearchLaunchManifest { launcher_path, args }
    }
}

} // verus!
