//! Samplesheet construction for the nf-core/viralrecon pipeline: grouping
//! the discovered files per sample and building one record line for each
//! sample, on either sequencing platform.
//!
//! A sample's candidate files are those whose file name contains the
//! identity text as a substring; for Illumina the first candidate carrying
//! an `R1` marker and the first carrying an `R2` marker become the mate
//! pair, and a sample missing either mate is dropped from the output rather
//! than aborting the run.

use vstd::prelude::*;

use crate::identity::{illumina_id, nanopore_id, platform_id, resolve_ids, starts_with};
use crate::prelude::{
    ConcatFields, GiveASheetError, NfCore, ReadRole, RetrieveSampleIds, Samplesheet, SeqPlatform,
};
use crate::utils::{
    contains_sub, file_name, file_name_spec, match_at, output_name, str_contains,
    vec_contains_string,
};

verus! {

/// The file at `path` belongs to sample `id` and carries `marker` in its
/// file name.
pub open spec fn is_mate(path: Seq<char>, id: Seq<char>, marker: Seq<char>) -> bool {
    contains_sub(file_name_spec(path), id) && contains_sub(file_name_spec(path), marker)
}

/// The first index at or after `i` whose path is a mate of `id` carrying
/// `marker`, or `paths.len()` when none is.
pub open spec fn mate_index_from(
    paths: Seq<Seq<char>>,
    id: Seq<char>,
    marker: Seq<char>,
    i: int,
) -> int
    decreases paths.len() - i,
{
    if i < 0 || i >= paths.len() {
        paths.len() as int
    } else if is_mate(paths[i], id, marker) {
        i
    } else {
        mate_index_from(paths, id, marker, i + 1)
    }
}

/// The index of the selected mate of `id` carrying `marker`, or
/// `paths.len()` when the mate is missing.
pub open spec fn mate_index(paths: Seq<Seq<char>>, id: Seq<char>, marker: Seq<char>) -> int {
    mate_index_from(paths, id, marker, 0)
}

/// The Illumina record line for `id`: the identity and the paths of its R1
/// and R2 mates, comma separated; `None` when either mate is missing.
pub open spec fn illumina_line(id: Seq<char>, paths: Seq<Seq<char>>) -> Option<Seq<char>> {
    let i1 = mate_index(paths, id, "R1"@);
    let i2 = mate_index(paths, id, "R2"@);
    if i1 < paths.len() && i2 < paths.len() {
        Option::Some(id + ","@ + paths[i1] + ","@ + paths[i2])
    } else {
        Option::None
    }
}

/// The role reported missing for an incomplete Illumina sample: R1 is
/// checked first.
pub open spec fn missing_role(id: Seq<char>, paths: Seq<Seq<char>>) -> ReadRole {
    if mate_index(paths, id, "R1"@) == paths.len() {
        ReadRole::Read1
    } else {
        ReadRole::Read2
    }
}

/// The numeric barcode field of a Nanopore identity: the identity with a
/// leading `barcode` removed and, when a zero-padded number remains, exactly
/// one leading `0` dropped.
pub open spec fn barcode_spec(id: Seq<char>) -> Seq<char> {
    let b = if starts_with(id, "barcode"@) {
        id.subrange("barcode"@.len() as int, id.len() as int)
    } else {
        id
    };
    if b.len() > 0 && b[0] == '0' {
        b.subrange(1, b.len() as int)
    } else {
        b
    }
}

/// The Nanopore record line for `id`: the identity and its barcode field.
pub open spec fn nanopore_line(id: Seq<char>) -> Seq<char> {
    id + ","@ + barcode_spec(id)
}

/// The record line a platform builds for `id` from the discovered paths, or
/// `None` when the sample must be dropped.
pub open spec fn platform_line(p: SeqPlatform, id: Seq<char>, paths: Seq<Seq<char>>) -> Option<
    Seq<char>,
> {
    match p {
        SeqPlatform::Illumina => illumina_line(id, paths),
        SeqPlatform::Nanopore => Option::Some(nanopore_line(id)),
    }
}

/// The record lines of the resolved identities, in identity order, with
/// incomplete samples dropped.
pub open spec fn concat_lines_spec(
    p: SeqPlatform,
    ids: Seq<Seq<char>>,
    paths: Seq<Seq<char>>,
) -> Seq<Seq<char>>
    decreases ids.len(),
{
    if ids.len() == 0 {
        Seq::empty()
    } else {
        let rest = concat_lines_spec(p, ids.drop_last(), paths);
        match platform_line(p, ids.last(), paths) {
            Option::Some(l) => rest.push(l),
            Option::None => rest,
        }
    }
}

/// A sample whose record line can be completed is never dropped: its line
/// stands in the built record list, whatever else the identity list holds.
pub proof fn lemma_complete_sample_emitted(
    p: SeqPlatform,
    ids: Seq<Seq<char>>,
    paths: Seq<Seq<char>>,
    k: int,
)
    requires
        0 <= k < ids.len(),
        platform_line(p, ids[k], paths) is Some,
    ensures
        concat_lines_spec(p, ids, paths).contains(platform_line(p, ids[k], paths)->Some_0),
    decreases ids.len(),
{
    let l = platform_line(p, ids[k], paths)->Some_0;
    let r = concat_lines_spec(p, ids, paths);
    let rest = concat_lines_spec(p, ids.drop_last(), paths);
    if k == ids.len() - 1 {
        assert(ids.last() == ids[k]);
        assert(r[r.len() - 1] == l);
    } else {
        assert(ids.drop_last()[k] == ids[k]);
        lemma_complete_sample_emitted(p, ids.drop_last(), paths, k);
        let iw = choose|iw: int| 0 <= iw < rest.len() && rest[iw] == l;
        assert(r[iw] == l);
    }
}

proof fn lemma_mate_index_found(
    paths: Seq<Seq<char>>,
    id: Seq<char>,
    marker: Seq<char>,
    k: int,
    i: int,
)
    requires
        0 <= k <= i <= paths.len(),
        forall|j: int| k <= j < i ==> !is_mate(#[trigger] paths[j], id, marker),
        i == paths.len() || is_mate(paths[i], id, marker),
    ensures
        mate_index_from(paths, id, marker, k) == i,
    decreases i - k,
{
    if k < i {
        lemma_mate_index_found(paths, id, marker, k + 1, i);
    }
}

/// Finds the index of the first file whose name contains both `id` and
/// `marker`.
pub fn find_mate_index(paths: &Vec<String>, id: &str, marker: &str) -> (r: Option<usize>)
    ensures
        match r {
            Some(j) => j == mate_index(paths.deep_view(), id@, marker@) && j < paths@.len(),
            None => mate_index(paths.deep_view(), id@, marker@) == paths@.len(),
        },
{
    let mut j: usize = 0;
    while j < paths.len()
        invariant
            j <= paths.len(),
            forall|k: int| 0 <= k < j ==> !is_mate(#[trigger] paths.deep_view()[k], id@, marker@),
        decreases paths.len() - j,
    {
        let name = file_name(paths[j].as_str());
        if str_contains(name, id) && str_contains(name, marker) {
            proof {
                assert(paths.deep_view()[j as int] == paths@[j as int]@);
                lemma_mate_index_found(paths.deep_view(), id@, marker@, 0, j as int);
            }
            return Some(j);
        }
        proof {
            assert(paths.deep_view()[j as int] == paths@[j as int]@);
        }
        j += 1;
    }
    proof {
        lemma_mate_index_found(paths.deep_view(), id@, marker@, 0, paths.deep_view().len() as int);
    }
    None
}

/// The numeric barcode field of a Nanopore identity.
fn barcode_field(sample_id: &str) -> (r: String)
    ensures
        r@ == barcode_spec(sample_id@),
{
    let len = sample_id.unicode_len();
    let pre = "barcode";
    let plen = pre.unicode_len();
    let start: usize = if len >= plen && match_at(sample_id, 0, pre) {
        proof {
            assert(sample_id@.subrange(0, pre@.len() as int) == sample_id@.subrange(
                0,
                0 + pre@.len() as int,
            ));
        }
        plen
    } else {
        proof {
            if len >= plen {
                assert(sample_id@.subrange(0, pre@.len() as int) == sample_id@.subrange(
                    0,
                    0 + pre@.len() as int,
                ));
            }
        }
        0
    };
    let ghost b = if starts_with(sample_id@, "barcode"@) {
        sample_id@.subrange("barcode"@.len() as int, sample_id@.len() as int)
    } else {
        sample_id@
    };
    proof {
        assert(b =~= sample_id@.subrange(start as int, len as int));
    }
    let final_start: usize = if start < len && sample_id.get_char(start) == '0' {
        proof {
            assert(b[0] == sample_id@[start as int]);
        }
        start + 1
    } else {
        proof {
            if start < len {
                assert(b[0] == sample_id@[start as int]);
            }
        }
        start
    };
    let r = sample_id.substring_char(final_start, len).to_owned();
    proof {
        assert(r@ =~= barcode_spec(sample_id@));
    }
    r
}

/// Builds one record line for a sample on the chosen platform.
pub trait CollectByPlatform {
    fn collect_by_platform(&self, sample_id: &str, fastq_paths: &Vec<String>) -> (r: Result<
        String,
        GiveASheetError,
    >);
}

impl CollectByPlatform for SeqPlatform {
    /// Builds the record line for `sample_id`, or reports the missing mate
    /// of an incomplete Illumina sample.
    fn collect_by_platform(&self, sample_id: &str, fastq_paths: &Vec<String>) -> (r: Result<
        String,
        GiveASheetError,
    >)
        ensures
            match r {
                Ok(line) => platform_line(*self, sample_id@, fastq_paths.deep_view())
                    == Option::Some(line@),
                Err(e) => {
                    &&& platform_line(*self, sample_id@, fastq_paths.deep_view()) is None
                    &&& match e {
                        GiveASheetError::MissingMate { sample_id: s, role } => s@ == sample_id@
                            && role == missing_role(sample_id@, fastq_paths.deep_view()),
                        _ => false,
                    }
                },
            },
    {
        match self {
            SeqPlatform::Illumina => {
                let r1 = find_mate_index(fastq_paths, sample_id, "R1");
                match r1 {
                    None => Err(
                        GiveASheetError::MissingMate {
                            sample_id: String::from_str(sample_id),
                            role: ReadRole::Read1,
                        },
                    ),
                    Some(j1) => {
                        let r2 = find_mate_index(fastq_paths, sample_id, "R2");
                        match r2 {
                            None => Err(
                                GiveASheetError::MissingMate {
                                    sample_id: String::from_str(sample_id),
                                    role: ReadRole::Read2,
                                },
                            ),
                            Some(j2) => {
                                let mut line = String::from_str(sample_id);
                                line.append(",");
                                line.append(fastq_paths[j1].as_str());
                                line.append(",");
                                line.append(fastq_paths[j2].as_str());
                                proof {
                                    assert(fastq_paths.deep_view()[j1 as int] == fastq_paths@[
                                        j1 as int
                                    ]@);
                                    assert(fastq_paths.deep_view()[j2 as int] == fastq_paths@[
                                        j2 as int
                                    ]@);
                                }
                                Ok(line)
                            },
                        }
                    },
                }
            },
            SeqPlatform::Nanopore => {
                let bc = barcode_field(sample_id);
                let mut line = String::from_str(sample_id);
                line.append(",");
                line.append(bc.as_str());
                Ok(line)
            },
        }
    }
}

impl RetrieveSampleIds for SeqPlatform {
    /// Resolves the canonical sample identities of the discovered paths,
    /// keeping first occurrences and enforcing uniqueness.
    fn retrieve_samples(&self, file_paths: &Vec<String>) -> (ids: Vec<String>)
        ensures
            ids.deep_view() == resolve_ids(*self, file_paths.deep_view()),
    {
        let mut ids: Vec<String> = Vec::new();
        let mut i: usize = 0;
        while i < file_paths.len()
            invariant
                i <= file_paths.len(),
                ids.deep_view() == resolve_ids(*self, file_paths.deep_view().take(i as int)),
            decreases file_paths.len() - i,
        {
            let name = file_name(file_paths[i].as_str());
            let id = match self {
                SeqPlatform::Illumina => illumina_id(name),
                SeqPlatform::Nanopore => nanopore_id(name),
            };
            proof {
                assert(file_paths.deep_view()[i as int] == file_paths@[i as int]@);
                assert(file_paths.deep_view().take(i + 1).drop_last() =~= file_paths.deep_view()
                    .take(i as int));
                assert(file_paths.deep_view().take(i + 1).last() == file_paths.deep_view()[
                    i as int
                ]);
            }
            if !vec_contains_string(&ids, &id) {
                let ghost old_ids = ids.deep_view();
                ids.push(id);
                proof {
                    assert(ids.deep_view() =~= old_ids.push(
                        platform_id(*self, file_name_spec(file_paths.deep_view()[i as int])),
                    ));
                }
            }
            i += 1;
        }
        proof {
            assert(file_paths.deep_view().take(file_paths@.len() as int) =~= file_paths.deep_view());
        }
        ids
    }
}

/// Builds the record lines for every resolved identity, dropping samples
/// whose record cannot be completed.
pub fn concat_lines(sample_ids: &Vec<String>, fastq_paths: &Vec<String>, platform: &SeqPlatform) -> (lines: Vec<String>)
    ensures
        lines.deep_view() == concat_lines_spec(
            *platform,
            sample_ids.deep_view(),
            fastq_paths.deep_view(),
        ),
{
    let mut lines: Vec<String> = Vec::new();
    let mut i: usize = 0;
    while i < sample_ids.len()
        invariant
            i <= sample_ids.len(),
            lines.deep_view() == concat_lines_spec(
                *platform,
                sample_ids.deep_view().take(i as int),
                fastq_paths.deep_view(),
            ),
        decreases sample_ids.len() - i,
    {
        proof {
            assert(sample_ids.deep_view()[i as int] == sample_ids@[i as int]@);
            assert(sample_ids.deep_view().take(i + 1).drop_last() =~= sample_ids.deep_view().take(
                i as int,
            ));
            assert(sample_ids.deep_view().take(i + 1).last() == sample_ids.deep_view()[i as int]);
        }
        let r = platform.collect_by_platform(sample_ids[i].as_str(), fastq_paths);
        match r {
            Ok(line) => {
                let ghost old_lines = lines.deep_view();
                lines.push(line);
                proof {
                    assert(lines.deep_view() =~= old_lines.push(
                        platform_line(
                            *platform,
                            sample_ids.deep_view()[i as int],
                            fastq_paths.deep_view(),
                        ).unwrap(),
                    ));
                }
            },
            Err(_) => {},
        }
        i += 1;
    }
    proof {
        assert(sample_ids.deep_view().take(sample_ids@.len() as int) =~= sample_ids.deep_view());
    }
    lines
}

/// Configuration of one nf-core/viralrecon samplesheet run.
pub struct ViralRecon {
    pub input_dir: String,
    pub fastq_ext: String,
    pub platform: SeqPlatform,
    pub output_prefix: Option<String>,
}

impl ViralRecon {
    /// Bundles the run configuration.
    pub fn new(
        input_dir: String,
        fastq_ext: String,
        platform: SeqPlatform,
        output_prefix: Option<String>,
    ) -> (r: Self)
        ensures
            r.input_dir == input_dir,
            r.fastq_ext == fastq_ext,
            r.platform == platform,
            r.output_prefix == output_prefix,
    {
        Self { input_dir, fastq_ext, platform, output_prefix }
    }

    /// Assembles the samplesheet from the discovered file paths: resolves
    /// the identities, builds the record lines, and pairs them with the
    /// viralrecon header and the output file name.
    pub fn sheet(&self, fastq_paths: &Vec<String>) -> (s: Samplesheet)
        ensures
            s.header@ == "sample,fastq_1,fastq_2"@,
            s.lines.deep_view() == concat_lines_spec(
                self.platform,
                resolve_ids(self.platform, fastq_paths.deep_view()),
                fastq_paths.deep_view(),
            ),
            match self.output_prefix {
                Some(prefix) => s.out_name@ == prefix@ + "_samplesheet.csv"@,
                None => s.out_name@ == "samplesheet.csv"@,
            },
    {
        let ids = self.platform.retrieve_samples(fastq_paths);
        let lines = concat_lines(&ids, fastq_paths, &self.platform);
        Samplesheet {
            out_name: output_name(&self.output_prefix),
            header: String::from_str("sample,fastq_1,fastq_2"),
            lines,
        }
    }
}

impl NfCore for ViralRecon {

}

impl ConcatFields for ViralRecon {
    /// Builds the record lines for the run's platform.
    fn concat_lines(&self, sample_ids: &Vec<String>, fastq_paths: &Vec<String>) -> (lines: Vec<
        String,
    >)
        ensures
            lines.deep_view() == concat_lines_spec(
                self.platform,
                sample_ids.deep_view(),
                fastq_paths.deep_view(),
            ),
    {
        concat_lines(sample_ids, fastq_paths, &self.platform)
    }
}

} // verus!
