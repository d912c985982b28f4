use std::collections::HashMap;
use std::sync::Arc;

use engine_core::analysis::AnalysisOutputConfig;

#[test]
fn analysis_config_keeps_manifest_and_outputs() {
    let mut outputs: HashMap<Arc<String>, Vec<&str>> = HashMap::new();
    outputs.insert(Arc::new("count".to_string()), vec!["filter", "count"]);
    outputs.insert(Arc::new("mean_age".to_string()), vec!["get", "mean"]);
    let manifest = "{\"outputs\": {}}".to_string();
    let config = AnalysisOutputConfig::new(manifest.clone(), outputs.clone());
    assert_eq!(config.manifest, manifest);
    assert_eq!(config.outputs, outputs);
}

#[test]
fn analysis_config_may_have_no_outputs() {
    let config: AnalysisOutputConfig<u8> = AnalysisOutputConfig::new(String::new(), HashMap::new());
    assert!(config.outputs.is_empty());
    assert_eq!(config.manifest, "");
}
