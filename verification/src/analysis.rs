//! The configuration of the analysis output package: the manifest that
//! names the outputs, and the operations that each output is computed by.

use std::collections::HashMap;
use std::sync::Arc;
use vstd::prelude::*;

verus! {

/// The outputs of an analysis and the manifest they were read from.
///
/// `Operation` is the representation of one analysis operation; how a
/// manifest is parsed into operations is not this type's concern.
#[derive(Debug)]
pub struct AnalysisOutputConfig<Operation> {
    pub outputs: HashMap<Arc<String>, Vec<Operation>>,
    pub manifest: String,
}

impl<Operation> AnalysisOutputConfig<Operation> {
    /// Puts a manifest together with the outputs that were parsed from it.
    pub fn new(manifest: String, outputs: HashMap<Arc<String>, Vec<Operation>>) -> (config:
        AnalysisOutputConfig<Operation>)
        ensures
            config.outputs == outputs,
            config.manifest == manifest,
    {
        AnalysisOutputConfig { outputs, manifest }
    }
}

} // verus!
