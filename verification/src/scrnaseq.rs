//! Samplesheet construction for the nf-core/scrnaseq pipeline: Illumina
//! paired-end grouping with a caller-supplied expected-cell count appended
//! to every record, plus an advisory length check on sample identities.

use vstd::prelude::*;

use crate::identity::{ends_with, resolve_ids};
use crate::prelude::{
    ConcatFields, GiveASheetError, NfCore, ReadRole, RetrieveSampleIds, Samplesheet, SeqPlatform,
};
use crate::utils::{int_str, i64_string, output_name};
use crate::viralrecon::{find_mate_index, mate_index, missing_role};

verus! {

/// The scrnaseq record line for `id`: the identity, the paths of its R1 and
/// R2 mates, and the expected cell count, comma separated; `None` when
/// either mate is missing.
pub open spec fn scrnaseq_line(id: Seq<char>, paths: Seq<Seq<char>>, cells: int) -> Option<
    Seq<char>,
> {
    let i1 = mate_index(paths, id, "R1"@);
    let i2 = mate_index(paths, id, "R2"@);
    if i1 < paths.len() && i2 < paths.len() {
        Option::Some(id + ","@ + paths[i1] + ","@ + paths[i2] + ","@ + int_str(cells))
    } else {
        Option::None
    }
}

/// The scrnaseq record lines of the resolved identities, in identity order,
/// with incomplete samples dropped.
pub open spec fn scrnaseq_lines_spec(
    ids: Seq<Seq<char>>,
    paths: Seq<Seq<char>>,
    cells: int,
) -> Seq<Seq<char>>
    decreases ids.len(),
{
    if ids.len() == 0 {
        Seq::empty()
    } else {
        let rest = scrnaseq_lines_spec(ids.drop_last(), paths, cells);
        match scrnaseq_line(ids.last(), paths, cells) {
            Option::Some(l) => rest.push(l),
            Option::None => rest,
        }
    }
}

/// Every emitted scrnaseq record line closes with a comma followed by the
/// caller-supplied expected cell count, independent of the sample.
pub proof fn lemma_expected_cells_field(ids: Seq<Seq<char>>, paths: Seq<Seq<char>>, cells: int)
    ensures
        forall|i: int|
            0 <= i < scrnaseq_lines_spec(ids, paths, cells).len() ==> ends_with(
                #[trigger] scrnaseq_lines_spec(ids, paths, cells)[i],
                ","@ + int_str(cells),
            ),
    decreases ids.len(),
{
    if ids.len() > 0 {
        lemma_expected_cells_field(ids.drop_last(), paths, cells);
        let rest = scrnaseq_lines_spec(ids.drop_last(), paths, cells);
        let r = scrnaseq_lines_spec(ids, paths, cells);
        match scrnaseq_line(ids.last(), paths, cells) {
            Option::Some(l) => {
                let suffix = ","@ + int_str(cells);
                assert(l.subrange(l.len() - suffix.len(), l.len() as int) =~= suffix);
                assert(forall|i: int| 0 <= i < rest.len() ==> r[i] == rest[i]);
                assert(r[r.len() - 1] == l);
            },
            Option::None => {},
        }
    }
}

/// A sample whose record line can be completed is never dropped, however
/// long its identity: the length check is advisory and does not alter the
/// record set.
pub proof fn lemma_complete_sample_emitted(
    ids: Seq<Seq<char>>,
    paths: Seq<Seq<char>>,
    cells: int,
    k: int,
)
    requires
        0 <= k < ids.len(),
        scrnaseq_line(ids[k], paths, cells) is Some,
    ensures
        scrnaseq_lines_spec(ids, paths, cells).contains(scrnaseq_line(ids[k], paths, cells)->Some_0),
    decreases ids.len(),
{
    let l = scrnaseq_line(ids[k], paths, cells)->Some_0;
    let r = scrnaseq_lines_spec(ids, paths, cells);
    let rest = scrnaseq_lines_spec(ids.drop_last(), paths, cells);
    if k == ids.len() - 1 {
        assert(ids.last() == ids[k]);
        assert(r[r.len() - 1] == l);
    } else {
        assert(ids.drop_last()[k] == ids[k]);
        lemma_complete_sample_emitted(ids.drop_last(), paths, cells, k);
        let iw = choose|iw: int| 0 <= iw < rest.len() && rest[iw] == l;
        assert(r[iw] == l);
    }
}

/// Builds one scrnaseq record line for a sample, or reports the missing
/// mate of an incomplete sample.
pub fn collect_per_sample(
    sample_id: &str,
    fastq_paths: &Vec<String>,
    expected_cells: &i64,
) -> (r: Result<String, GiveASheetError>)
    ensures
        match r {
            Ok(line) => scrnaseq_line(sample_id@, fastq_paths.deep_view(), *expected_cells as int)
                == Option::Some(line@),
            Err(e) => {
                &&& scrnaseq_line(sample_id@, fastq_paths.deep_view(), *expected_cells as int)
                    is None
                &&& match e {
                    GiveASheetError::MissingMate { sample_id: s, role } => s@ == sample_id@ && role
                        == missing_role(sample_id@, fastq_paths.deep_view()),
                    _ => false,
                }
            },
        },
{
    let r1 = find_mate_index(fastq_paths, sample_id, "R1");
    match r1 {
        None => Err(
            GiveASheetError::MissingMate {
                sample_id: String::from_str(sample_id),
                role: ReadRole::Read1,
            },
        ),
        Some(j1) => {
            let r2 = find_mate_index(fastq_paths, sample_id, "R2");
            match r2 {
                None => Err(
                    GiveASheetError::MissingMate {
                        sample_id: String::from_str(sample_id),
                        role: ReadRole::Read2,
                    },
                ),
                Some(j2) => {
                    let cell_str = i64_string(*expected_cells);
                    let mut line = String::from_str(sample_id);
                    line.append(",");
                    line.append(fastq_paths[j1].as_str());
                    line.append(",");
                    line.append(fastq_paths[j2].as_str());
                    line.append(",");
                    line.append(cell_str.as_str());
                    proof {
                        assert(fastq_paths.deep_view()[j1 as int] == fastq_paths@[j1 as int]@);
                        assert(fastq_paths.deep_view()[j2 as int] == fastq_paths@[j2 as int]@);
                    }
                    Ok(line)
                },
            }
        },
    }
}

/// The identities whose character count reaches the advisory length
/// ceiling, in order.
pub open spec fn long_ids(ids: Seq<Seq<char>>) -> Seq<Seq<char>>
    decreases ids.len(),
{
    if ids.len() == 0 {
        Seq::empty()
    } else {
        let rest = long_ids(ids.drop_last());
        if ids.last().len() >= 64 {
            rest.push(ids.last())
        } else {
            rest
        }
    }
}

/// Returns the sample identities of 64 or more characters, which may exceed
/// a downstream aligner's sample-name ceiling. Advisory only: the record
/// set is computed independently of this check.
pub fn check_sample_ids(sample_ids: &Vec<String>) -> (warnings: Vec<String>)
    ensures
        warnings.deep_view() == long_ids(sample_ids.deep_view()),
{
    let mut warnings: Vec<String> = Vec::new();
    let mut i: usize = 0;
    while i < sample_ids.len()
        invariant
            i <= sample_ids.len(),
            warnings.deep_view() == long_ids(sample_ids.deep_view().take(i as int)),
        decreases sample_ids.len() - i,
    {
        proof {
            assert(sample_ids.deep_view()[i as int] == sample_ids@[i as int]@);
            assert(sample_ids.deep_view().take(i + 1).drop_last() =~= sample_ids.deep_view().take(
                i as int,
            ));
            assert(sample_ids.deep_view().take(i + 1).last() == sample_ids.deep_view()[i as int]);
        }
        if sample_ids[i].as_str().unicode_len() >= 64 {
            let ghost old_warnings = warnings.deep_view();
            let id = sample_ids[i].clone();
            warnings.push(id);
            proof {
                assert(warnings.deep_view() =~= old_warnings.push(
                    sample_ids.deep_view()[i as int],
                ));
            }
        }
        i += 1;
    }
    proof {
        assert(sample_ids.deep_view().take(sample_ids@.len() as int) =~= sample_ids.deep_view());
    }
    warnings
}

/// Configuration of one nf-core/scrnaseq samplesheet run. The platform is
/// implicitly Illumina.
pub struct ScrnaSeq {
    pub input_dir: String,
    pub fastq_ext: String,
    pub expected_cells: i64,
    pub output_prefix: Option<String>,
}

impl ScrnaSeq {
    /// Bundles the run configuration.
    pub fn new(
        input_dir: String,
        fastq_ext: String,
        expected_cells: i64,
        output_prefix: Option<String>,
    ) -> (r: Self)
        ensures
            r.input_dir == input_dir,
            r.fastq_ext == fastq_ext,
            r.expected_cells == expected_cells,
            r.output_prefix == output_prefix,
    {
        Self { input_dir, fastq_ext, expected_cells, output_prefix }
    }

    /// Assembles the samplesheet from the discovered file paths, together
    /// with the advisory warnings for over-long sample identities. The
    /// warnings never alter the record set.
    pub fn sheet(&self, fastq_paths: &Vec<String>) -> (r: (Samplesheet, Vec<String>))
        ensures
            r.0.header@ == "sample,fastq_1,fastq_2,expected_cells"@,
            r.0.lines.deep_view() == scrnaseq_lines_spec(
                resolve_ids(SeqPlatform::Illumina, fastq_paths.deep_view()),
                fastq_paths.deep_view(),
                self.expected_cells as int,
            ),
            r.1.deep_view() == long_ids(resolve_ids(SeqPlatform::Illumina, fastq_paths.deep_view())),
            match self.output_prefix {
                Some(prefix) => r.0.out_name@ == prefix@ + "_samplesheet.csv"@,
                None => r.0.out_name@ == "samplesheet.csv"@,
            },
    {
        let ids = self.retrieve_samples(fastq_paths);
        let warnings = check_sample_ids(&ids);
        let lines = self.concat_lines(&ids, fastq_paths);
        let sheet = Samplesheet {
            out_name: output_name(&self.output_prefix),
            header: String::from_str("sample,fastq_1,fastq_2,expected_cells"),
            lines,
        };
        (sheet, warnings)
    }
}

impl NfCore for ScrnaSeq {

}

impl RetrieveSampleIds for ScrnaSeq {
    /// Resolves the sample identities with the Illumina normalization rule.
    fn retrieve_samples(&self, file_paths: &Vec<String>) -> (ids: Vec<String>)
        ensures
            ids.deep_view() == resolve_ids(SeqPlatform::Illumina, file_paths.deep_view()),
    {
        SeqPlatform::Illumina.retrieve_samples(file_paths)
    }
}

impl ConcatFields for ScrnaSeq {
    /// Builds the scrnaseq record lines, appending the run's expected cell
    /// count to each.
    fn concat_lines(&self, sample_ids: &Vec<String>, fastq_paths: &Vec<String>) -> (lines: Vec<
        String,
    >)
        ensures
            lines.deep_view() == scrnaseq_lines_spec(
                sample_ids.deep_view(),
                fastq_paths.deep_view(),
                self.expected_cells as int,
            ),
    {
        let mut lines: Vec<String> = Vec::new();
        let mut i: usize = 0;
        while i < sample_ids.len()
            invariant
                i <= sample_ids.len(),
                lines.deep_view() == scrnaseq_lines_spec(
                    sample_ids.deep_view().take(i as int),
                    fastq_paths.deep_view(),
                    self.expected_cells as int,
                ),
            decreases sample_ids.len() - i,
        {
            proof {
                assert(sample_ids.deep_view()[i as int] == sample_ids@[i as int]@);
                assert(sample_ids.deep_view().take(i + 1).drop_last() =~= sample_ids.deep_view()
                    .take(i as int));
                assert(sample_ids.deep_view().take(i + 1).last() == sample_ids.deep_view()[
                    i as int
                ]);
            }
            let r = collect_per_sample(sample_ids[i].as_str(), fastq_paths, &self.expected_cells);
            match r {
                Ok(line) => {
                    let ghost old_lines = lines.deep_view();
                    lines.push(line);
                    proof {
                        assert(lines.deep_view() =~= old_lines.push(
                            scrnaseq_line(
                                sample_ids.deep_view()[i as int],
                                fastq_paths.deep_view(),
                                self.expected_cells as int,
                            ).unwrap(),
                        ));
                    }
                },
                Err(_) => {},
            }
            i += 1;
        }
        proof {
            assert(sample_ids.deep_view().take(sample_ids@.len() as int) =~= sample_ids.deep_view());
        }
        lines
    }
}

} // verus!
