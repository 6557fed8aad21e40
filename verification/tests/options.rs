use resident_ai::api::{
    full_prompt, is_image, is_image_extension, plan_analyze, plan_analyze_files, AnalyzePlan,
};
use resident_ai::{AnalyzeOptions, Backend, OutputFormat, UsageMode};

#[test]
fn default_options() {
    let opts = AnalyzeOptions::default();
    assert_eq!(opts.backend, Backend::Gemini);
    assert_eq!(opts.usage_mode, UsageMode::TimeBasedQuota);
    assert_eq!(opts.output_format, OutputFormat::Text);
}

#[test]
fn options_builder_chain() {
    let opts = AnalyzeOptions::default()
        .json()
        .with_backend(Backend::Claude)
        .with_usage_mode(UsageMode::Resident);
    assert_eq!(opts.output_format, OutputFormat::Json);
    assert_eq!(opts.backend, Backend::Claude);
    assert_eq!(opts.usage_mode, UsageMode::Resident);
}

#[test]
fn is_image_detection() {
    assert_eq!(is_image("photo.jpg"), true);
    assert_eq!(is_image("photo.png"), true);
    assert_eq!(is_image("doc.pdf"), false);
    assert_eq!(is_image("data.json"), false);
}

#[test]
fn is_image_edge_cases() {
    assert_eq!(is_image("dir/pic.webp"), true);
    assert_eq!(is_image("noext"), false);
    assert_eq!(is_image(".png"), false);
    assert_eq!(is_image("photo.JPG"), false);
    assert_eq!(is_image("a.jpg/b"), false);
    assert_eq!(is_image("a.b.jpg"), true);
    assert_eq!(is_image("..."), false);
    assert_eq!(is_image("x.jpg."), false);
    assert!(is_image_extension(Some("bmp")));
    assert!(is_image_extension(Some("jpeg")));
    assert!(!is_image_extension(Some("tiff")));
    assert!(!is_image_extension(None));
}

#[test]
fn defaults_of_enums_and_model() {
    assert_eq!(Backend::default(), Backend::Gemini);
    assert_eq!(UsageMode::default(), UsageMode::TimeBasedQuota);
    assert_eq!(OutputFormat::default(), OutputFormat::Text);
    let opts = AnalyzeOptions::default().with_model("flash".to_string());
    assert_eq!(opts.model, "flash");
    assert_eq!(AnalyzeOptions::default().model, "");
}

#[test]
fn full_prompt_json_instruction() {
    assert_eq!(full_prompt("hi", OutputFormat::Text), "hi");
    assert_eq!(full_prompt("hi", OutputFormat::Json), "hi Respond with ONLY the JSON object.");
}

#[test]
fn analyze_plans() {
    let json = AnalyzeOptions::default().json();
    match plan_analyze("q", false, true, &json) {
        AnalyzePlan::Prompt(p) => assert_eq!(p, "q Respond with ONLY the JSON object."),
        _ => panic!("no files means a plain prompt"),
    }
    let text = AnalyzeOptions::default();
    assert!(matches!(plan_analyze("q", true, true, &text), AnalyzePlan::ImagePrompt(p) if p == "q"));
    assert!(matches!(plan_analyze("q", true, false, &text), AnalyzePlan::FilesPrompt(p) if p == "q"));
    assert!(matches!(plan_analyze_files("q", &[], &text), AnalyzePlan::Prompt(_)));
    assert!(matches!(plan_analyze_files("q", &["a.png", "b.txt"], &text), AnalyzePlan::ImagePrompt(_)));
    assert!(matches!(plan_analyze_files("q", &["b.txt", "a.png"], &text), AnalyzePlan::FilesPrompt(_)));
}

#[test]
fn is_image_with_directories() {
    assert!(is_image("dir/sub/pic.png"));
    assert!(is_image("./photo.jpeg"));
    assert!(is_image("/abs/x.gif"));
    assert!(!is_image("pics.png/readme"));
    assert!(!is_image("dir/.png"));
    let text = AnalyzeOptions::default();
    assert!(matches!(plan_analyze_files("q", &["img/a.bmp"], &text), AnalyzePlan::ImagePrompt(_)));
    assert!(matches!(plan_analyze_files("q", &["img.bmp/a"], &text), AnalyzePlan::FilesPrompt(_)));
}
