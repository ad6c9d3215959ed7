//! The registry of supported nf-core pipelines: a fixed enumerated set of
//! pipeline identifiers checked at construction time, so that an unknown
//! name is rejected with an error instead of silently accepted.

use vstd::prelude::*;

use crate::prelude::GiveASheetError;
use crate::utils::str_eq;

verus! {

/// The nf-core pipelines this crate can build a samplesheet for.
#[derive(Debug, Clone, Copy, PartialEq, Eq, Structural)]
pub enum SupportedPipelines {
    ViralRecon,
    ScrnaSeq,
}

impl SupportedPipelines {
    /// Looks a pipeline up by its lower-case name, rejecting names outside
    /// the supported set.
    pub fn from_name(name: &str) -> (r: Result<SupportedPipelines, GiveASheetError>)
        ensures
            match r {
                Ok(SupportedPipelines::ViralRecon) => name@ == "viralrecon"@,
                Ok(SupportedPipelines::ScrnaSeq) => name@ == "scrnaseq"@,
                Err(e) => {
                    &&& name@ != "viralrecon"@
                    &&& name@ != "scrnaseq"@
                    &&& match e {
                        GiveASheetError::PipelineDoesNotExist(s) => s@ == name@,
                        _ => false,
                    }
                },
            },
    {
        if str_eq(name, "viralrecon") {
            Ok(SupportedPipelines::ViralRecon)
        } else if str_eq(name, "scrnaseq") {
            Ok(SupportedPipelines::ScrnaSeq)
        } else {
            Err(GiveASheetError::PipelineDoesNotExist(String::from_str(name)))
        }
    }

    /// The full nf-core name of the pipeline.
    pub fn name(&self) -> (r: String)
        ensures
            match self {
                SupportedPipelines::ViralRecon => r@ == "nf-core/viralrecon"@,
                SupportedPipelines::ScrnaSeq => r@ == "nf-core/scrnaseq"@,
            },
    {
        match self {
            SupportedPipelines::ViralRecon => String::from_str("nf-core/viralrecon"),
            SupportedPipelines::ScrnaSeq => String::from_str("nf-core/scrnaseq"),
        }
    }
}

} // verus!
