//! Shared vocabulary of the crate: the sequencing platforms, the error and
//! role types, the samplesheet artifact, and the traits that the pipeline
//! builders implement.

use vstd::prelude::*;

verus! {

/// The sequencing platforms with distinct identity and grouping rules.
#[derive(Debug, Clone, Copy, PartialEq, Eq, Structural)]
pub enum SeqPlatform {
    Illumina,
    Nanopore,
}

impl SeqPlatform {
    /// The lower-case name used on the command line.
    pub fn name(&self) -> (r: String)
        ensures
            match self {
                SeqPlatform::Illumina => r@ == "illumina"@,
                SeqPlatform::Nanopore => r@ == "nanopore"@,
            },
    {
        match self {
            SeqPlatform::Illumina => String::from_str("illumina"),
            SeqPlatform::Nanopore => String::from_str("nanopore"),
        }
    }
}

/// The mate role a read file plays within one paired sample.
#[derive(Debug, Clone, Copy, PartialEq, Eq, Structural)]
pub enum ReadRole {
    Read1,
    Read2,
}

/// Failures of samplesheet construction.
///
/// `MissingMate` is non-fatal: the assembler drops the affected sample and
/// keeps going. `PipelineDoesNotExist` is returned by the pipeline registry
/// for a name outside the supported set.
#[derive(Debug)]
pub enum GiveASheetError {
    PipelineDoesNotExist(String),
    InvalidFileExt { pipeline: String, expected: String, found: String },
    MissingMate { sample_id: String, role: ReadRole },
}

/// Marker for the nf-core pipelines this crate can build samplesheets for.
pub trait NfCore: Sized {

}

/// Derives the set of canonical sample identities from discovered file paths.
pub trait RetrieveSampleIds {
    fn retrieve_samples(&self, file_paths: &Vec<String>) -> (ids: Vec<String>);
}

/// Builds the record line for every resolved sample, dropping samples whose
/// record cannot be completed.
pub trait ConcatFields: NfCore {
    fn concat_lines(&self, sample_ids: &Vec<String>, fastq_paths: &Vec<String>) -> (lines: Vec<
        String,
    >);
}

/// The text of the record lines, one per line, each closed by a newline.
pub open spec fn lines_text(lines: Seq<Seq<char>>) -> Seq<char>
    decreases lines.len(),
{
    if lines.len() == 0 {
        Seq::empty()
    } else {
        lines_text(lines.drop_last()) + lines.last() + "\n"@
    }
}

/// The complete samplesheet file: header first, then one line per record.
pub open spec fn sheet_text(header: Seq<char>, lines: Seq<Seq<char>>) -> Seq<char> {
    header + "\n"@ + lines_text(lines)
}

/// The terminal artifact of one run: the output file name, the header line,
/// and the ordered record lines.
pub struct Samplesheet {
    pub out_name: String,
    pub header: String,
    pub lines: Vec<String>,
}

impl Samplesheet {
    /// Serializes the sheet: the header line, then every record line, each
    /// closed by a newline and with no further trailing text.
    pub fn render(&self) -> (r: String)
        ensures
            r@ == sheet_text(self.header@, self.lines.deep_view()),
    {
        let mut s = String::from_str(self.header.as_str());
        s.append("\n");
        let mut i: usize = 0;
        while i < self.lines.len()
            invariant
                i <= self.lines.len(),
                s@ == sheet_text(self.header@, self.lines.deep_view().take(i as int)),
            decreases self.lines.len() - i,
        {
            proof {
                assert(self.lines.deep_view().take(i + 1).drop_last() =~= self.lines.deep_view()
                    .take(i as int));
                assert(self.lines.deep_view().take(i + 1).last() == self.lines[i as int]@);
            }
            s.append(self.lines[i].as_str());
            s.append("\n");
            proof {
                assert(s@ =~= sheet_text(self.header@, self.lines.deep_view().take(i + 1)));
            }
            i += 1;
        }
        proof {
            assert(self.lines.deep_view().take(self.lines.len() as int) =~= self.lines.deep_view());
        }
        s
    }
}

} // verus!
