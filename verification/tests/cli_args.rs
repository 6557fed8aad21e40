use resident_ai::cli::{parse_cli_args, CliCommand};

fn args(v: &[&str]) -> Vec<String> {
    v.iter().map(|s| s.to_string()).collect()
}

#[test]
fn cli_full_analyze() {
    let r = parse_cli_args(&args(&["analyze", "--prompt", "describe", "--json", "--model", "m1", "a.png", "b.txt"])).ok().unwrap();
    assert_eq!(r.command, CliCommand::Analyze);
    assert_eq!(r.prompt, "describe");
    assert!(r.json);
    assert_eq!(r.model.as_deref(), Some("m1"));
    assert_eq!(r.files, vec!["a.png".to_string(), "b.txt".to_string()]);
    assert_eq!(r.full_prompt(), "describe Respond with ONLY the JSON object.");
    assert!(r.sends_files());
}

#[test]
fn cli_short_forms_and_ignored_flags() {
    let r = parse_cli_args(&args(&["--backend", "codex", "p", "-p", "hi", "--pay-per-use", "-m", "x", "--cli-path", "/bin/c"])).ok().unwrap();
    assert_eq!(r.command, CliCommand::Prompt);
    assert_eq!(r.prompt, "hi");
    assert!(!r.json);
    assert_eq!(r.model.as_deref(), Some("x"));
    assert!(r.files.is_empty());
    assert_eq!(r.full_prompt(), "hi");
    assert!(!r.sends_files());
    let r = parse_cli_args(&args(&["a", "-p", "q", "f.png", "--backend"])).ok().unwrap();
    assert_eq!(r.command, CliCommand::Analyze);
    assert_eq!(r.files, vec!["f.png".to_string()]);
    let r = parse_cli_args(&args(&["prompt", "-p", "q", "f.png"])).ok().unwrap();
    assert!(!r.sends_files());
}

#[test]
fn cli_errors() {
    let e = parse_cli_args(&args(&["analyze", "--prompt"])).err().unwrap();
    assert_eq!((e.message.as_str(), e.exit_code), ("--prompt requires value", 2));
    let e = parse_cli_args(&args(&["analyze", "-p", "x", "-m"])).err().unwrap();
    assert_eq!(e.message, "--model requires value");
    let e = parse_cli_args(&args(&["analyze", "--verbose", "-p", "x"])).err().unwrap();
    assert_eq!(e.message, "unknown flag: --verbose");
    let e = parse_cli_args(&args(&["-p", "x"])).err().unwrap();
    assert_eq!(e.message, "expected subcommand: analyze or prompt");
    let e = parse_cli_args(&args(&["analyze", "file"])).err().unwrap();
    assert_eq!(e.message, "--prompt is required");
    let e = parse_cli_args(&args(&[])).err().unwrap();
    assert_eq!(e.exit_code, 2);
    let r = parse_cli_args(&args(&["analyze", "-p", "x", "-json"])).ok().unwrap();
    assert_eq!(r.files, vec!["-json".to_string()]);
}
