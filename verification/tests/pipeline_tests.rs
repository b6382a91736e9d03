use legal_engine::case::{ClaimRow, IpForcePatent, WebResource};
use legal_engine::errors::{CompileError, FetchError, GenerationError, ParseError};
use legal_engine::parse::{json_span, parse_llm_output};
use legal_engine::pipeline::{CaseRun, PipelineAction, Stage};
use legal_engine::text::truncate_chars;

const STUB_JSON: &str = "{\"title\":\"T\",\"case_no\":\"C\",\"date\":\"\",\"result\":\"\",\"summary\":\"\",\"keywords\":[],\"claim_chart\":[]}";

#[test]
fn parse_extracts_span_between_braces() {
    let input = format!("noise {} trailing", STUB_JSON);
    let fields = parse_llm_output(&input).expect("span should parse");
    assert_eq!(fields.title, "T");
    assert_eq!(fields.case_no, "C");
    assert_eq!(fields.date, "");
    assert_eq!(fields.keywords.len(), 0);
    assert_eq!(fields.claim_chart.len(), 0);
}

#[test]
fn parse_without_brace_fails() {
    let err = parse_llm_output("no structured data here").unwrap_err();
    assert!(matches!(err, ParseError::InvalidJson { .. }));
    assert!(!err.message().is_empty());
}

#[test]
fn parse_rejects_wrong_field_shape() {
    let err = parse_llm_output("{\"title\": 7}").unwrap_err();
    match err {
        ParseError::BadField { field } => assert_eq!(field, "title"),
        other => panic!("expected BadField, got {:?}", other),
    }
}

#[test]
fn parse_fills_keywords_and_claim_chart() {
    let input = "{\"title\":\"T\",\"keywords\":[\"a\",\"b\"],\"claim_chart\":[{\"requirement\":\"r\",\"defendant\":\"d\",\"judgment\":\"j\",\"is_satisfied\":true}]}";
    let fields = parse_llm_output(input).expect("should parse");
    assert_eq!(fields.keywords, vec!["a".to_string(), "b".to_string()]);
    assert_eq!(fields.claim_chart.len(), 1);
    assert_eq!(fields.claim_chart[0].requirement, "r");
    assert!(fields.claim_chart[0].is_satisfied);
}

#[test]
fn json_span_is_first_open_to_last_close() {
    assert_eq!(json_span("ab {x} cd {y} ef"), "{x} cd {y}");
    assert_eq!(json_span("no braces"), "no braces");
    assert_eq!(json_span("} reversed {"), "} reversed {");
}

#[test]
fn load_llm_data_updates_case() {
    let mut patent = IpForcePatent::new(14753);
    let out = format!("```json\n{}\n```", STUB_JSON);
    patent.load_llm_data(&out).expect("should load");
    assert_eq!(patent.title, "T");
    assert_eq!(patent.case_no, "C");
    assert_eq!(patent.case_id, 14753);
}

#[test]
fn load_llm_data_failure_leaves_case_unchanged() {
    let mut patent = IpForcePatent::new(1);
    assert!(patent.load_llm_data("garbage").is_err());
    assert_eq!(patent.title, "");
    assert_eq!(patent.case_no, "");
}

#[test]
fn id_is_derived_from_case_number() {
    let patent = IpForcePatent::new(14753);
    assert_eq!(patent.id(), "ip_force_14753");
    assert_eq!(IpForcePatent::new(0).id(), "ip_force_0");
    assert_eq!(IpForcePatent::new(u32::MAX).id(), "ip_force_4294967295");
}

#[test]
fn render_produces_exact_report_source() {
    let mut patent = IpForcePatent::new(1);
    patent.title = "T".to_string();
    patent.case_no = "C".to_string();
    patent.date = "D".to_string();
    patent.result = "R".to_string();
    patent.summary = "S".to_string();
    patent.keywords = vec!["k1".to_string(), "k2".to_string()];
    patent.claim_chart = vec![ClaimRow {
        requirement: "req".to_string(),
        defendant: "def".to_string(),
        judgment: "judg".to_string(),
        is_satisfied: true,
    }];
    let source = patent.render().expect("render should succeed");
    let expected = "= T\n\n*Case number:* C \\\n*Date:* D \\\n*Result:* R\n\n== Summary\nS\n\n== Keywords\n- k1\n- k2\n\n== Claim chart\n#table(\n  columns: 4,\n  [Requirement], [Defendant], [Judgment], [Satisfied],\n  [req], [def], [judg], [Yes],\n)\n";
    assert_eq!(source, expected);
}

#[test]
fn render_without_title_fails() {
    let patent = IpForcePatent::new(1);
    let err = patent.render().unwrap_err();
    assert_eq!(err.missing_field, "title");
    let mut with_title = IpForcePatent::new(1);
    with_title.title = "T".to_string();
    let err = with_title.render().unwrap_err();
    assert_eq!(err.missing_field, "case_no");
}

#[test]
fn truncation_cuts_to_budget() {
    let doc: String = "x".repeat(6000);
    let cut = truncate_chars(&doc, 5000);
    assert_eq!(cut.chars().count(), 5000);
    let short = truncate_chars("abc", 5000);
    assert_eq!(short, "abc");
}

#[test]
fn six_thousand_chars_reach_prompt_stage_as_five_thousand() {
    let (mut run, action) = CaseRun::start(7, "/tmp/out".to_string());
    assert!(matches!(action, PipelineAction::Fetch { case_id: 7 }));
    let doc: String = "a".repeat(6000);
    let action = run.on_fetch(Ok(doc));
    assert!(matches!(action, PipelineAction::LoadPrompt));
    let action = run.on_prompt(None);
    match action {
        PipelineAction::Generate { system, user } => {
            assert_eq!(system, "You are a helpful assistant.");
            assert_eq!(user.chars().count(), 5000);
        }
        other => panic!("expected Generate, got another action: {:?}", stage_name(&other)),
    }
}

#[test]
fn pipeline_produces_artifact_paths_for_case() {
    let (mut run, _) = CaseRun::start(14753, "/srv/output".to_string());
    run.on_fetch(Ok("judgment text".to_string()));
    run.on_prompt(Some("analyse this".to_string()));
    let action = run.on_generate(Ok(format!("prefix {} suffix", STUB_JSON)));
    match action {
        PipelineAction::Compile { source_path, artifact_path, source } => {
            assert_eq!(source_path, "/srv/output/ip_force_14753.typ");
            assert_eq!(artifact_path, "/srv/output/ip_force_14753.pdf");
            assert!(source.starts_with("= T\n"));
        }
        other => panic!("expected Compile, got another action: {:?}", stage_name(&other)),
    }
    let action = run.on_compile(Ok(()));
    assert!(matches!(action, PipelineAction::Stop));
    match &run.stage {
        Stage::Succeeded { title, case_no, artifact_path } => {
            assert_eq!(title, "T");
            assert_eq!(case_no, "C");
            assert_eq!(artifact_path, "/srv/output/ip_force_14753.pdf");
        }
        _ => panic!("expected success"),
    }
}

#[test]
fn compiler_failure_fails_the_run_with_a_message() {
    let (mut run, _) = CaseRun::start(14753, "/srv/output".to_string());
    run.on_fetch(Ok("judgment text".to_string()));
    run.on_prompt(None);
    run.on_generate(Ok(STUB_JSON.to_string()));
    let action = run.on_compile(Err(CompileError { message: "exit status 1".to_string() }));
    assert!(matches!(action, PipelineAction::Stop));
    match &run.stage {
        Stage::Failed { message } => assert!(!message.is_empty()),
        _ => panic!("expected failure"),
    }
}

#[test]
fn fetch_failure_short_circuits() {
    let (mut run, _) = CaseRun::start(1, "/o".to_string());
    let action = run.on_fetch(Err(FetchError { message: "boom".to_string() }));
    assert!(matches!(action, PipelineAction::Stop));
    assert!(matches!(&run.stage, Stage::Failed { message } if message == "fetch failed: boom"));
}

#[test]
fn generation_failure_short_circuits() {
    let (mut run, _) = CaseRun::start(1, "/o".to_string());
    run.on_fetch(Ok("text".to_string()));
    run.on_prompt(None);
    let action = run.on_generate(Err(GenerationError { message: "oom".to_string() }));
    assert!(matches!(action, PipelineAction::Stop));
    assert!(matches!(&run.stage, Stage::Failed { message } if message == "generation failed: oom"));
}

#[test]
fn hallucinated_output_fails_parse_but_not_the_process() {
    let (mut run, _) = CaseRun::start(1, "/o".to_string());
    run.on_fetch(Ok("text".to_string()));
    run.on_prompt(None);
    let action = run.on_generate(Ok("I could not find structured data.".to_string()));
    assert!(matches!(action, PipelineAction::Stop));
    assert!(matches!(&run.stage, Stage::Failed { message } if !message.is_empty()));
}

fn stage_name(a: &PipelineAction) -> &'static str {
    match a {
        PipelineAction::Fetch { .. } => "Fetch",
        PipelineAction::LoadPrompt => "LoadPrompt",
        PipelineAction::Generate { .. } => "Generate",
        PipelineAction::Compile { .. } => "Compile",
        PipelineAction::Stop => "Stop",
    }
}
