use code_assistant::llm::{
    conversion_failure_message, extract_summary_types, extract_yaml, optimization_prompt, provider_kind, yaml_attempt_messages,
    yaml_retry_step, LlmKind, LlmService, YamlAction, YAML_MAX_ATTEMPTS,
};

#[test]
fn providers_ignore_case() {
    assert!(matches!(provider_kind("OpenAI"), LlmKind::OpenAI));
    assert!(matches!(provider_kind("ANTHROPIC"), LlmKind::Anthropic));
    assert!(matches!(provider_kind("gemini"), LlmKind::Gemini));
    assert!(matches!(provider_kind("mistral"), LlmKind::Gemini));
}

#[test]
fn yaml_is_taken_from_between_fences() {
    let answer = "Here it is:\n```yaml\ndescription: x\nfunctions: []\n```\nThanks";
    assert_eq!(extract_yaml(answer), "description: x\nfunctions: []");
    assert_eq!(extract_yaml("  description: y  \n"), "description: y");
    assert_eq!(extract_yaml("```\na: 1\n```yml\nb: 2\n```"), "a: 1\nb: 2");
    assert_eq!(extract_yaml("yaml\nc: 3"), "c: 3");
}

#[test]
fn summary_types_are_extracted() {
    let src = "use x;\n#[derive(Debug)]\n#[serde(default)]\npub struct Function {\n    pub name: String,\n}\n#[derive(Clone)]\npub struct Other {\n    x: u8,\n}\nfn f() {}\n";
    assert_eq!(
        extract_summary_types(src),
        "#[derive(Debug)]\n#[serde(default)]\npub struct Function {\n    pub name: String,\n}\n\n"
    );
    let cut = "#[derive(Debug)]\npub struct Class {\n    a: u8,";
    assert_eq!(extract_summary_types(cut), "#[derive(Debug)]\npub struct Class {\n    a: u8,\n\n");
    let svc = LlmService::new();
    assert_eq!(svc.prompt_with_structs("Schema:\nReplaceWithStructCode-end", "#[derive(X)]\npub struct Parameter;\n"), "Schema:\n#[derive(X)]\npub struct Parameter;\n\n-end");
}

#[test]
fn attempt_messages_include_feedback_after_a_failure() {
    let first = yaml_attempt_messages("prompt", "ok", &None, "fn x() {}");
    assert_eq!(first.len(), 3);
    assert_eq!(first[2], ("user".to_string(), "```\nfn x() {}\n```".to_string()));
    let retry = yaml_attempt_messages("prompt", "ok", &Some(("bad key".to_string(), "a: [".to_string())), "code");
    assert_eq!(retry.len(), 5);
    assert!(retry[2].1.starts_with("The YAML you previously generated for the *same code* below failed to parse with the following error:\n\n```\nbad key\n```\n\nHere was the invalid YAML:\n\n```yaml\na: [\n```"));
    assert_eq!(retry[3].0, "model");
}

#[test]
fn failure_message_names_the_last_error() {
    assert_eq!(
        conversion_failure_message(3, "src/a.rs", &Some("boom".to_string())),
        "Failed to generate valid YAML after 3 attempts for file 'src/a.rs'. Last error: boom"
    );
    assert_eq!(
        conversion_failure_message(3, "a", &None),
        "Failed to generate valid YAML after 3 attempts for file 'a'. Last error: Unknown parsing error"
    );
}

#[test]
fn optimization_prompt_parts() {
    let p = optimization_prompt("find bugs", Some("shorter"), Some(""), Some("ctx"));
    assert_eq!(
        p,
        "You are an expert query optimization assistant. Your task is to refine user queries. .\n\nHere are the contents of the selected context files:\nctx\n\nOriginal prompt to optimize: \"find bugs\"\nOptimization Direction: \"shorter\"\nYou must only output the optimized query, without any additional conversational text or formatting (e.g., no \"Optimized Query:\", no quotes around the query, no markdown code blocks and no description or summary about the optimization)."
    );
}

#[test]
fn replies_are_escaped_or_report_errors() {
    let svc = LlmService::new();
    assert_eq!(svc.reply_text(Ok("a < b \"c\"".to_string()), "Error during analysis"), "a &lt; b &#34;c&#34;");
    assert_eq!(svc.reply_text(Err("timeout".to_string()), "Error during analysis"), "Error during analysis: timeout");
}

#[test]
fn yaml_attempts_retry_then_give_up() {
    assert!(matches!(yaml_retry_step(1, "a.rs", Ok("description: x".to_string())), YamlAction::Done(y) if y == "description: x"));
    match yaml_retry_step(2, "a.rs", Err(("bad".to_string(), "y: [".to_string()))) {
        YamlAction::Retry(e, y) => {
            assert_eq!(e, "bad");
            assert_eq!(y, "y: [");
        }
        _ => panic!("expected a retry"),
    }
    match yaml_retry_step(YAML_MAX_ATTEMPTS, "a.rs", Err(("bad".to_string(), "y: [".to_string()))) {
        YamlAction::GiveUp(m) => assert_eq!(m, "Failed to generate valid YAML after 3 attempts for file 'a.rs'. Last error: bad"),
        _ => panic!("expected to give up"),
    }
}
