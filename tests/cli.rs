use std::path::PathBuf;

use folding_physics::cli::{check_engine, render_contract, FoldCommand};

#[test]
fn parses_minimal_arguments() {
    let args = vec!["input.fasta".to_string()];
    let cmd = FoldCommand::parse(&args).unwrap();
    assert_eq!(PathBuf::from(&cmd.input), PathBuf::from("input.fasta"));
    assert_eq!(PathBuf::from(&cmd.output), PathBuf::from("input.pdb"));
    assert_eq!(PathBuf::from(&cmd.contract_path), PathBuf::from("input.lll"));
    assert_eq!(cmd.engine, "logline");
    assert!(!cmd.rollback);
}

#[test]
fn parses_all_flags() {
    let args: Vec<String> = vec![
        "input.fa".into(),
        "--output".into(),
        "result.pdb".into(),
        "--engine".into(),
        "toy".into(),
        "--contract".into(),
        "workflow.lll".into(),
        "--rollback".into(),
    ];
    let cmd = FoldCommand::parse(&args).unwrap();
    assert_eq!(PathBuf::from(&cmd.output), PathBuf::from("result.pdb"));
    assert_eq!(PathBuf::from(&cmd.contract_path), PathBuf::from("workflow.lll"));
    assert_eq!(cmd.engine, "toy");
    assert!(cmd.rollback);
}

#[test]
fn rejects_unknown_flags() {
    let args: Vec<String> = vec!["input.fa".into(), "--weird".into()];
    assert!(FoldCommand::parse(&args).is_err());
}

#[test]
fn unknown_flag_error_names_the_flag() {
    let args: Vec<String> = vec!["input.fa".into(), "--weird".into()];
    assert_eq!(FoldCommand::parse(&args).unwrap_err(), "unknown fold argument: --weird");
}

#[test]
fn empty_arguments_are_rejected() {
    let args: Vec<String> = Vec::new();
    assert_eq!(
        FoldCommand::parse(&args).unwrap_err(),
        "missing input sequence (FASTA or JSON)"
    );
}

#[test]
fn flag_without_value_is_rejected() {
    let args: Vec<String> = vec!["input.fa".into(), "--engine".into()];
    assert_eq!(FoldCommand::parse(&args).unwrap_err(), "--engine expects a value");
    let args: Vec<String> = vec!["input.fa".into(), "--output".into()];
    assert_eq!(FoldCommand::parse(&args).unwrap_err(), "--output expects a path");
    let args: Vec<String> = vec!["input.fa".into(), "--contract".into()];
    assert_eq!(FoldCommand::parse(&args).unwrap_err(), "--contract expects a path");
}

#[test]
fn second_positional_is_rejected() {
    let args: Vec<String> = vec!["input.fa".into(), "other.fa".into()];
    assert_eq!(
        FoldCommand::parse(&args).unwrap_err(),
        "unexpected positional argument 'other.fa'. Expected only the input path."
    );
}

#[test]
fn no_rollback_overrides_rollback() {
    let args: Vec<String> = vec!["in.fa".into(), "--rollback".into(), "--no-rollback".into()];
    let cmd = FoldCommand::parse(&args).unwrap();
    assert!(!cmd.rollback);
}

#[test]
fn contract_defaults_next_to_explicit_output() {
    let args: Vec<String> = vec!["in.fa".into(), "--output".into(), "out/model.pdb".into()];
    let cmd = FoldCommand::parse(&args).unwrap();
    assert_eq!(cmd.output, "out/model.pdb");
    assert_eq!(cmd.contract_path, "out/model.lll");
}

#[test]
fn render_contract_matches_manifesto() {
    let contract = render_contract("input.fasta", "output.pdb", true);
    assert!(contract.contains("span:type=protein_folding"));
    assert!(contract.contains("rollback: true"));
}

#[test]
fn render_contract_full_text() {
    let contract = render_contract("a.fa", "b.pdb", false);
    assert_eq!(
        contract,
        "span:type=protein_folding\nid: logline_fold_run\nsteps:\n  - load: \"a.fa\"\n  - fold: \"logline_encoder_v1\"\n  - export: \"b.pdb\"\nrollback: false\n"
    );
}

#[test]
fn engine_check_ignores_case() {
    assert!(check_engine("LogLine").is_ok());
    assert_eq!(
        check_engine("openmm").unwrap_err(),
        "unsupported engine 'openmm'. Only 'logline' is available in v0.1."
    );
}
