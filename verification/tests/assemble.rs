use give_a_sheet::cli::Commands;
use give_a_sheet::pipelines::SupportedPipelines;
use give_a_sheet::prelude::{GiveASheetError, SeqPlatform};
use give_a_sheet::scrnaseq::ScrnaSeq;
use give_a_sheet::viralrecon::ViralRecon;

fn owned(paths: &[&str]) -> Vec<String> {
    paths.iter().map(|p| p.to_string()).collect()
}

#[test]
fn viralrecon_header_correctness() {
    let run = ViralRecon::new(
        "data".to_string(),
        ".fastq.gz".to_string(),
        SeqPlatform::Illumina,
        None,
    );
    let sheet = run.sheet(&owned(&[]));
    assert_eq!(sheet.header, "sample,fastq_1,fastq_2");
    assert_eq!(sheet.out_name, "samplesheet.csv");
    assert!(sheet.lines.is_empty());
    assert_eq!(sheet.render(), "sample,fastq_1,fastq_2\n");
}

#[test]
fn scrnaseq_header_correctness() {
    let run = ScrnaSeq::new(
        "data".to_string(),
        ".fastq.gz".to_string(),
        10000,
        Some("run7".to_string()),
    );
    let (sheet, warnings) = run.sheet(&owned(&[]));
    assert_eq!(sheet.header, "sample,fastq_1,fastq_2,expected_cells");
    assert_eq!(sheet.out_name, "run7_samplesheet.csv");
    assert!(sheet.lines.is_empty());
    assert!(warnings.is_empty());
}

#[test]
fn viralrecon_illumina_full_run() {
    let paths = owned(&[
        "data/A_S1_L001_R1_001.fastq.gz",
        "data/A_S1_L001_R2_001.fastq.gz",
        "data/B_S1_L001_R1_001.fastq.gz",
    ]);
    let cmd = Commands::Viralrecon {
        input_dir: "data".to_string(),
        fastq_ext: ".fastq.gz".to_string(),
        platform: SeqPlatform::Illumina,
        output_prefix: None,
    };
    let (sheet, warnings) = cmd.assemble(&paths);
    assert_eq!(
        sheet.render(),
        "sample,fastq_1,fastq_2\nA,data/A_S1_L001_R1_001.fastq.gz,data/A_S1_L001_R2_001.fastq.gz\n"
    );
    assert!(warnings.is_empty());
}

#[test]
fn viralrecon_nanopore_full_run() {
    let paths = owned(&["barcode01.fastq.gz", "barcode12.fastq.gz"]);
    let cmd = Commands::Viralrecon {
        input_dir: ".".to_string(),
        fastq_ext: ".fastq.gz".to_string(),
        platform: SeqPlatform::Nanopore,
        output_prefix: None,
    };
    let (sheet, _) = cmd.assemble(&paths);
    assert_eq!(sheet.lines, vec!["barcode01,1".to_string(), "barcode12,12".to_string()]);
}

#[test]
fn scrnaseq_every_record_ends_with_expected_cells() {
    let paths = owned(&[
        "A_S1_L001_R1_001.fastq.gz",
        "A_S1_L001_R2_001.fastq.gz",
        "B_S2_L001_R1_001.fastq.gz",
        "B_S2_L001_R2_001.fastq.gz",
    ]);
    let cmd = Commands::Scrnaseq {
        input_dir: ".".to_string(),
        fastq_ext: ".fastq.gz".to_string(),
        expected_cells: 5000,
        output_prefix: None,
    };
    let (sheet, _) = cmd.assemble(&paths);
    assert_eq!(sheet.lines.len(), 2);
    for line in &sheet.lines {
        assert!(line.ends_with(",5000"));
    }
}

#[test]
fn length_warning_is_non_blocking() {
    let long_base: String = "x".repeat(70);
    let r1 = format!("{}_S1_L001_R1_001.fastq.gz", long_base);
    let r2 = format!("{}_S1_L001_R2_001.fastq.gz", long_base);
    let paths = owned(&[r1.as_str(), r2.as_str()]);
    let run = ScrnaSeq::new(".".to_string(), ".fastq.gz".to_string(), 800, None);
    let (sheet, warnings) = run.sheet(&paths);
    assert_eq!(sheet.lines, vec![format!("{},{},{},800", long_base, r1, r2)]);
    assert_eq!(warnings, vec![long_base]);
}

#[test]
fn length_warning_threshold_is_sixty_four() {
    let base63: String = "y".repeat(63);
    let base64: String = "z".repeat(64);
    let paths = vec![
        format!("{}_R1.fastq.gz", base63),
        format!("{}_R2.fastq.gz", base63),
        format!("{}_R1.fastq.gz", base64),
        format!("{}_R2.fastq.gz", base64),
    ];
    let run = ScrnaSeq::new(".".to_string(), ".fastq.gz".to_string(), 1, None);
    let (sheet, warnings) = run.sheet(&paths);
    assert_eq!(sheet.lines.len(), 2);
    assert_eq!(warnings, vec![base64]);
}

#[test]
fn idempotence_byte_identical_output() {
    let paths = owned(&[
        "data/A_S1_L001_R1_001.fastq.gz",
        "data/A_S1_L001_R2_001.fastq.gz",
        "data/B_S1_L001_R1_001.fastq.gz",
        "data/B_S1_L001_R2_001.fastq.gz",
    ]);
    let cmd = Commands::Viralrecon {
        input_dir: "data".to_string(),
        fastq_ext: ".fastq.gz".to_string(),
        platform: SeqPlatform::Illumina,
        output_prefix: Some("again".to_string()),
    };
    let (first, _) = cmd.assemble(&paths);
    let (second, _) = cmd.assemble(&paths);
    assert_eq!(first.render(), second.render());
    assert_eq!(first.out_name, second.out_name);
}

#[test]
fn pipeline_registry_accepts_known_names() {
    assert!(matches!(
        SupportedPipelines::from_name("viralrecon"),
        Ok(SupportedPipelines::ViralRecon)
    ));
    assert!(matches!(
        SupportedPipelines::from_name("scrnaseq"),
        Ok(SupportedPipelines::ScrnaSeq)
    ));
    assert_eq!(SupportedPipelines::ViralRecon.name(), "nf-core/viralrecon");
}

#[test]
fn pipeline_registry_rejects_unknown_names() {
    let err = SupportedPipelines::from_name("mag").unwrap_err();
    assert!(matches!(err, GiveASheetError::PipelineDoesNotExist(ref s) if s == "mag"));
}
