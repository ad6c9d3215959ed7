//! The subcommands a run can be asked for, as plain data, and the
//! assembler that turns one subcommand plus the discovered file paths into
//! the finished samplesheet. Argument parsing, file discovery and file
//! writing belong to the surrounding application.

use vstd::prelude::*;

use crate::identity::resolve_ids;
use crate::prelude::{Samplesheet, SeqPlatform};
use crate::scrnaseq::{long_ids, scrnaseq_lines_spec, ScrnaSeq};
use crate::viralrecon::{concat_lines_spec, ViralRecon};

verus! {

/// One samplesheet request: the target pipeline and its settings.
pub enum Commands {
    Scrnaseq {
        input_dir: String,
        fastq_ext: String,
        expected_cells: i64,
        output_prefix: Option<String>,
    },
    Viralrecon {
        input_dir: String,
        fastq_ext: String,
        platform: SeqPlatform,
        output_prefix: Option<String>,
    },
}

fn clone_prefix(p: &Option<String>) -> (r: Option<String>)
    ensures
        r == *p,
{
    match p {
        Some(s) => Some(s.clone()),
        None => None,
    }
}

impl Commands {
    /// Assembles the samplesheet for this request from the discovered file
    /// paths, together with the advisory warnings (always empty for
    /// viralrecon). Identity resolution, grouping and record construction
    /// run strictly in sequence; the warnings never alter the record set.
    pub fn assemble(&self, fastq_paths: &Vec<String>) -> (r: (Samplesheet, Vec<String>))
        ensures
            match self {
                Commands::Viralrecon { platform, output_prefix, .. } => {
                    &&& r.0.header@ == "sample,fastq_1,fastq_2"@
                    &&& r.0.lines.deep_view() == concat_lines_spec(
                        *platform,
                        resolve_ids(*platform, fastq_paths.deep_view()),
                        fastq_paths.deep_view(),
                    )
                    &&& r.1.deep_view() == Seq::<Seq<char>>::empty()
                    &&& match output_prefix {
                        Some(prefix) => r.0.out_name@ == prefix@ + "_samplesheet.csv"@,
                        None => r.0.out_name@ == "samplesheet.csv"@,
                    }
                },
                Commands::Scrnaseq { expected_cells, output_prefix, .. } => {
                    &&& r.0.header@ == "sample,fastq_1,fastq_2,expected_cells"@
                    &&& r.0.lines.deep_view() == scrnaseq_lines_spec(
                        resolve_ids(SeqPlatform::Illumina, fastq_paths.deep_view()),
                        fastq_paths.deep_view(),
                        *expected_cells as int,
                    )
                    &&& r.1.deep_view() == long_ids(
                        resolve_ids(SeqPlatform::Illumina, fastq_paths.deep_view()),
                    )
                    &&& match output_prefix {
                        Some(prefix) => r.0.out_name@ == prefix@ + "_samplesheet.csv"@,
                        None => r.0.out_name@ == "samplesheet.csv"@,
                    }
                },
            },
    {
        match self {
            Commands::Viralrecon { input_dir, fastq_ext, platform, output_prefix } => {
                let run = ViralRecon::new(
                    input_dir.clone(),
                    fastq_ext.clone(),
                    *platform,
                    clone_prefix(output_prefix),
                );
                let sheet = run.sheet(fastq_paths);
                let warnings: Vec<String> = Vec::new();
                proof {
                    assert(warnings.deep_view() =~= Seq::<Seq<char>>::empty());
                }
                (sheet, warnings)
            },
            Commands::Scrnaseq { input_dir, fastq_ext, expected_cells, output_prefix } => {
                let run = ScrnaSeq::new(
                    input_dir.clone(),
                    fastq_ext.clone(),
                    *expected_cells,
                    clone_prefix(output_prefix),
                );
                run.sheet(fastq_paths)
            },
        }
    }
}

} // verus!
