use give_a_sheet::prelude::{RetrieveSampleIds, SeqPlatform};

fn ids(platform: SeqPlatform, paths: &[&str]) -> Vec<String> {
    let owned: Vec<String> = paths.iter().map(|p| p.to_string()).collect();
    platform.retrieve_samples(&owned)
}

#[test]
fn illumina_mates_share_one_identity() {
    let got = ids(
        SeqPlatform::Illumina,
        &["data/A_S1_L001_R1_001.fastq.gz", "data/A_S1_L001_R2_001.fastq.gz"],
    );
    assert_eq!(got, vec!["A".to_string()]);
}

#[test]
fn illumina_optional_segments() {
    assert_eq!(ids(SeqPlatform::Illumina, &["B_R1.fastq.gz"]), vec!["B".to_string()]);
    assert_eq!(ids(SeqPlatform::Illumina, &["C_L001_R1_001.fastq.gz"]), vec!["C".to_string()]);
    assert_eq!(ids(SeqPlatform::Illumina, &["D_S12_R2.fastq.gz"]), vec!["D".to_string()]);
    assert_eq!(ids(SeqPlatform::Illumina, &["E_S3_L002_R2.fastq.gz"]), vec!["E".to_string()]);
}

#[test]
fn illumina_no_suffix_keeps_whole_name() {
    assert_eq!(ids(SeqPlatform::Illumina, &["README.txt"]), vec!["README.txt".to_string()]);
    // `_2` after the read segment is a chunk number, but then nothing may
    // follow before the extension, so this name has no matching suffix.
    assert_eq!(
        ids(SeqPlatform::Illumina, &["x_R1_2_001.fastq.gz"]),
        vec!["x_R1_2_001.fastq.gz".to_string()]
    );
}

#[test]
fn illumina_strips_leftmost_match() {
    // The suffix starting at `_R9` does not parse (an `S` segment may not
    // follow the read segment), so the leftmost real match starts at `_S1`.
    assert_eq!(
        ids(SeqPlatform::Illumina, &["A_R9_S1_L001_R1_001.fastq.gz"]),
        vec!["A_R9".to_string()]
    );
}

#[test]
fn illumina_directories_are_ignored() {
    let got = ids(
        SeqPlatform::Illumina,
        &["run1/A_S1_L001_R1_001.fastq.gz", "run2/A_S1_L001_R2_001.fastq.gz"],
    );
    assert_eq!(got, vec!["A".to_string()]);
}

#[test]
fn nanopore_strips_only_extension() {
    let got = ids(SeqPlatform::Nanopore, &["barcode01.fastq.gz", "barcode12.fastq.gz"]);
    assert_eq!(got, vec!["barcode01".to_string(), "barcode12".to_string()]);
}

#[test]
fn nanopore_without_extension_keeps_name() {
    assert_eq!(ids(SeqPlatform::Nanopore, &["reads.fq"]), vec!["reads.fq".to_string()]);
}

#[test]
fn identities_are_deduplicated() {
    let got = ids(SeqPlatform::Nanopore, &["run1/barcode01.fastq.gz", "run2/barcode01.fastq.gz"]);
    assert_eq!(got, vec!["barcode01".to_string()]);
}
