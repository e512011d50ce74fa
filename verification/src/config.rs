//! The run configuration as the core consumes it: the raw fields read from
//! the configuration file, and the processed form with the marker defaulted.

use vstd::prelude::*;

verus! {

/// The configuration as loaded: glob patterns, manifest output path, optional
/// asset root for relativizing manifest entries, optional marker override.
pub struct Config {
    pub patterns: Vec<String>,
    pub manifest: String,
    pub asset_path: Option<String>,
    pub marker: Option<String>,
}

/// The configuration after processing: the marker is always present.
pub struct ProcessedConfig {
    pub patterns: Vec<String>,
    pub manifest: String,
    pub asset_path: Option<String>,
    pub marker: String,
}

/// The marker token used when the configuration names none.
pub open spec fn default_marker() -> Seq<char> {
    "cached"@
}

/// The asset root of a processed configuration, as the path specs speak of it.
pub open spec fn spec_asset_root(asset_path: Option<String>) -> Option<Seq<char>> {
    match asset_path {
        Some(a) => Some(a@),
        None => None,
    }
}

/// Fill the defaults in: the resulting configuration keeps every field and
/// carries the default marker where none was configured.
pub fn process_config(config: &Config) -> (r: ProcessedConfig)
    ensures
        r.patterns@ == config.patterns@,
        r.manifest@ == config.manifest@,
        spec_asset_root(r.asset_path) == spec_asset_root(config.asset_path),
        r.marker@ == match config.marker {
            Some(m) => m@,
            None => default_marker(),
        },
{
    let marker = match &config.marker {
        Some(m) => m.clone(),
        None => String::from_str("cached"),
    };
    let asset_path = match &config.asset_path {
        Some(a) => Some(a.clone()),
        None => None,
    };
    let mut patterns: Vec<String> = Vec::new();
    let mut i: usize = 0;
    while i < config.patterns.len()
        invariant
            i <= config.patterns@.len(),
            patterns@ =~= config.patterns@.take(i as int),
        decreases config.patterns@.len() - i,
    {
        patterns.push(config.patterns[i].clone());
        proof {
            assert(patterns@ =~= config.patterns@.take(i + 1));
        }
        i = i + 1;
    }
    proof {
        assert(config.patterns@.take(config.patterns@.len() as int) =~= config.patterns@);
    }
    ProcessedConfig { patterns, manifest: config.manifest.clone(), asset_path, marker }
}

} // verus!
