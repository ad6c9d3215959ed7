use give_a_sheet::prelude::{GiveASheetError, ReadRole, SeqPlatform};
use give_a_sheet::scrnaseq::collect_per_sample;
use give_a_sheet::utils::i64_string;
use give_a_sheet::viralrecon::{concat_lines, CollectByPlatform};

fn owned(paths: &[&str]) -> Vec<String> {
    paths.iter().map(|p| p.to_string()).collect()
}

#[test]
fn pairing_correctness() {
    let paths = owned(&["data/A_S1_L001_R1_001.fastq.gz", "data/A_S1_L001_R2_001.fastq.gz"]);
    let line = SeqPlatform::Illumina.collect_by_platform("A", &paths).unwrap();
    assert_eq!(line, "A,data/A_S1_L001_R1_001.fastq.gz,data/A_S1_L001_R2_001.fastq.gz");
}

#[test]
fn missing_r2_reports_read2() {
    let paths = owned(&["data/B_S1_L001_R1_001.fastq.gz"]);
    let err = SeqPlatform::Illumina.collect_by_platform("B", &paths).unwrap_err();
    assert!(matches!(
        err,
        GiveASheetError::MissingMate { ref sample_id, role: ReadRole::Read2 } if sample_id == "B"
    ));
}

#[test]
fn missing_r1_reports_read1() {
    let paths = owned(&["data/B_S1_L001_R2_001.fastq.gz"]);
    let err = SeqPlatform::Illumina.collect_by_platform("B", &paths).unwrap_err();
    assert!(matches!(
        err,
        GiveASheetError::MissingMate { ref sample_id, role: ReadRole::Read1 } if sample_id == "B"
    ));
}

#[test]
fn nanopore_barcode_derivation() {
    let paths = owned(&["barcode01.fastq.gz", "barcode12.fastq.gz"]);
    let one = SeqPlatform::Nanopore.collect_by_platform("barcode01", &paths).unwrap();
    assert_eq!(one, "barcode01,1");
    let twelve = SeqPlatform::Nanopore.collect_by_platform("barcode12", &paths).unwrap();
    assert_eq!(twelve, "barcode12,12");
}

#[test]
fn nanopore_drops_exactly_one_leading_zero() {
    let paths = owned(&["barcode001.fastq.gz"]);
    let line = SeqPlatform::Nanopore.collect_by_platform("barcode001", &paths).unwrap();
    assert_eq!(line, "barcode001,01");
}

#[test]
fn nanopore_without_barcode_prefix_keeps_identity() {
    let paths = owned(&["reads.fastq.gz"]);
    let line = SeqPlatform::Nanopore.collect_by_platform("reads", &paths).unwrap();
    assert_eq!(line, "reads,reads");
}

#[test]
fn incomplete_pair_is_dropped() {
    let paths = owned(&[
        "data/A_S1_L001_R1_001.fastq.gz",
        "data/A_S1_L001_R2_001.fastq.gz",
        "data/B_S1_L001_R1_001.fastq.gz",
    ]);
    let ids = owned(&["A", "B"]);
    let lines = concat_lines(&ids, &paths, &SeqPlatform::Illumina);
    assert_eq!(
        lines,
        vec!["A,data/A_S1_L001_R1_001.fastq.gz,data/A_S1_L001_R2_001.fastq.gz".to_string()]
    );
}

#[test]
fn scrnaseq_record_appends_expected_cells() {
    let paths = owned(&["data/A_S1_L001_R1_001.fastq.gz", "data/A_S1_L001_R2_001.fastq.gz"]);
    let line = collect_per_sample("A", &paths, &5000).unwrap();
    assert_eq!(
        line,
        "A,data/A_S1_L001_R1_001.fastq.gz,data/A_S1_L001_R2_001.fastq.gz,5000"
    );
}

#[test]
fn substring_identities_pool_candidate_files() {
    // A known sharp edge: an identity that is a prefix of another pools the
    // other sample's files. With sample10's files listed first, sample1's
    // record selects them.
    let paths = owned(&[
        "sample10_S1_L001_R1_001.fastq.gz",
        "sample10_S1_L001_R2_001.fastq.gz",
        "sample1_S1_L001_R1_001.fastq.gz",
        "sample1_S1_L001_R2_001.fastq.gz",
    ]);
    let line = SeqPlatform::Illumina.collect_by_platform("sample1", &paths).unwrap();
    assert_eq!(
        line,
        "sample1,sample10_S1_L001_R1_001.fastq.gz,sample10_S1_L001_R2_001.fastq.gz"
    );
}

#[test]
fn decimal_formatting() {
    assert_eq!(i64_string(0), "0");
    assert_eq!(i64_string(5000), "5000");
    assert_eq!(i64_string(-12), "-12");
    assert_eq!(i64_string(i64::MAX), "9223372036854775807");
    assert_eq!(i64_string(i64::MIN), "-9223372036854775808");
}
