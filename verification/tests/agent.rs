use code_assistant::agent::{consolidate_search_results, generate_contextual_vector_query, hit_target_path, AgentContext, AgentState};
use code_assistant::agent_flow::{
    agent_model_message, agent_user_message, apply_architect_decision, architect_prompt, begin_architect_turn,
    finish_initial_search, handle_fetch_source, handle_search_more, load_file_contents, load_yaml_summaries, parse_architect_reply,
    populate_file_context, prepare_architect_request, prepare_generation, reply_json, select_summaries,
    start_initial_search, ArchitectDecision,
};
use code_assistant::agent_service::{AgentService, TurnAction};
use code_assistant::chat::ChatMessage;
use code_assistant::models::{EmbeddingMetadata, Project};

fn strs(v: &[&str]) -> Vec<String> {
    v.iter().map(|s| s.to_string()).collect()
}

fn pairs(v: &[(&str, &str)]) -> Vec<(String, String)> {
    v.iter().map(|(a, b)| (a.to_string(), b.to_string())).collect()
}

fn project() -> Project {
    Project {
        name: "demo".to_string(),
        languages: "rs".to_string(),
        source_dir: "/work/demo".to_string(),
        model: "gemini".to_string(),
        provider: "gemini".to_string(),
        specific_model: None,
        file_descriptions: pairs(&[("/work/demo/src/a.rs", "A"), ("/work/demo/src/b.rs", "B")]),
        embeddings: vec![(
            "/work/demo/src/c.rs".to_string(),
            EmbeddingMetadata {
                file_path: "/work/demo/src/c.rs".to_string(),
                last_updated: 0,
                vector_id: "v".to_string(),
                git_blob_hash: None,
            },
        )],
        git_integration_enabled: false,
        default_use_yaml: true,
        file_yaml_override: vec![],
    }
}

fn message(role: &str, content: &str) -> ChatMessage {
    ChatMessage {
        role: role.to_string(),
        content: content.to_string(),
        hidden: false,
        commit_hash: None,
        timestamp: None,
        context_files: None,
        provider: None,
        model: None,
        hidden_context: None,
        thoughts: None,
        id: 0,
        parent_id: None,
    }
}

#[test]
fn context_keeps_sources_and_summaries_apart() {
    let mut c = AgentContext::new(3);
    c.add_yaml_summary("a.rs".to_string(), "sum a".to_string());
    c.add_file_content("a.rs".to_string(), "fn a() {}".to_string());
    c.add_yaml_summary("a.rs".to_string(), "again".to_string());
    c.add_yaml_summary("b.rs".to_string(), "sum b".to_string());
    assert_eq!(c.file_contents_map, pairs(&[("a.rs", "fn a() {}")]));
    assert_eq!(c.yaml_summaries, pairs(&[("b.rs", "sum b")]));
    assert_eq!(c.total_files(), 2);
}

#[test]
fn turns_run_out_after_the_maximum() {
    let mut c = AgentContext::new(2);
    assert!(!c.increment_turn());
    assert!(c.increment_turn());
    assert_eq!(c.thoughts, strs(&["Warning: Reached maximum architect turns (2). Forcing generation."]));
}

#[test]
fn architect_turn_is_numbered_or_stops() {
    let mut c = AgentContext::new(2);
    assert!(begin_architect_turn(&mut c).is_none());
    assert_eq!(c.thoughts, strs(&["--- Architect Turn 1 ---"]));
    assert!(matches!(begin_architect_turn(&mut c), Some(AgentState::ReadyToGenerate)));
    assert_eq!(c.thoughts.len(), 2);
}

#[test]
fn contextual_query_takes_the_last_six_turns() {
    let mut h = vec![message("system", "ignored")];
    for i in 0..8 {
        h.push(message(if i % 2 == 0 { "user" } else { "model" }, &format!("m{}", i)));
    }
    let q = generate_contextual_vector_query("task", &h, "latest");
    let expected = "Consider the following initial task:\ntask\n\nReview the recent conversation history to understand the current context and goal:\n\
user: m2\nmodel: m3\nuser: m4\nmodel: m5\nuser: m6\nmodel: m7\n\n\nBased on this, and the user's latest message:\nlatest\n\nWhat are the most relevant details for addressing the current request and conversation state? Provide a comprehensive and focused query for a semantic search. Your output will fill in the details missing from the latest message (since what you generate here will be prepended to the latest message before sending to the vector search).";
    assert_eq!(q, expected);
    assert_eq!(AgentService::generate_contextual_vector_query("task", &h, "latest"), expected);
}

#[test]
fn contextual_query_without_history() {
    let q = generate_contextual_vector_query("t", &vec![], "u");
    assert!(q.starts_with("Consider the following initial task:\nt\n\nBased on this, and the user's latest message:\nu\n\n"));
}

#[test]
fn keyword_hit_names_its_source() {
    assert_eq!(hit_target_path("/out/demo/src*main.rs.yml", "demo"), Some("src/main.rs".to_string()));
    assert_eq!(hit_target_path("/out/other/x.yml", "demo"), None);
}

#[test]
fn consolidation_merges_without_repeats() {
    let p = project();
    let mut thoughts = Vec::new();
    let r = consolidate_search_results(
        &p,
        &strs(&["src/b.rs", "nowhere.rs"]),
        &strs(&["/x/demo//work*demo*src*c.rs.yml", "bad"]),
        &strs(&["a.rs", "/work/demo/src/b.rs"]),
        &mut thoughts,
    );
    assert_eq!(r, strs(&["/work/demo/src/a.rs", "/work/demo/src/b.rs", "/work/demo/src/c.rs"]));
    assert_eq!(
        thoughts,
        strs(&[
            "Could not normalize path from raw vector search results: nowhere.rs",
            "Could not extract target path from YAML hit: bad",
        ])
    );
}

#[test]
fn summaries_for_the_architect_are_sorted_and_limited() {
    let summaries = pairs(&[("c", "3"), ("a", "1"), ("b", "2")]);
    let sources = pairs(&[("b", "src")]);
    assert_eq!(select_summaries(&summaries, &sources, 30), pairs(&[("a", "1"), ("c", "3")]));
    assert_eq!(select_summaries(&summaries, &sources, 1), pairs(&[("a", "1")]));
}

#[test]
fn architect_request_notes_its_steps() {
    let mut c = AgentContext::new(3);
    c.add_yaml_summary("z".to_string(), "zz".to_string());
    let chosen = prepare_architect_request(&mut c);
    assert_eq!(chosen, pairs(&[("z", "zz")]));
    assert_eq!(
        c.thoughts,
        strs(&[
            "Refined proactive descriptions for Architect to 1 files (not already full source).",
            "Requesting Architect LLM decision on next steps.",
        ])
    );
}

#[test]
fn architect_prompt_lists_summaries_and_sources() {
    let p = architect_prompt("q", "u", &pairs(&[("a.rs", "does a")]), &pairs(&[("b.rs", "fn b() {}")]));
    assert!(p.starts_with("You are an AI architect assistant."));
    assert!(p.contains("Initial User Query: \"q\"\nUser's Latest Message: \"u\"\n\n--- YAML Maps (High-Level Descriptions) ---\nFILE: a.rs\nDESCRIPTION:\ndoes a\n\n--- Active Code Files (Full Source) ---\nFILE: b.rs\nCONTENT:\n```\nfn b() {}\n```\n\n--- Your Decision ---\n"));
    assert!(p.ends_with("Start with '{' and end with '}'.\n"));
    let empty = architect_prompt("q", "u", &vec![], &vec![]);
    assert!(!empty.contains("--- YAML Maps"));
    assert!(!empty.contains("--- Active Code Files"));
}

#[test]
fn reply_json_strips_fences_and_entities() {
    assert_eq!(reply_json("  ```json\n{&quot;a&quot;: 1}\n```  "), "{\"a\": 1}");
    assert_eq!(reply_json("```\n{}\n```"), "{}");
    assert_eq!(reply_json("{ }"), "{ }");
}

#[test]
fn architect_reply_is_parsed() {
    let d = parse_architect_reply("```json\n{\"action\": \"FETCH_SOURCE\", \"reason\": \"need it\", \"paths\": [\"a.rs\", 3, \"b.rs\"]}\n```").unwrap();
    assert_eq!(d.action, Some("FETCH_SOURCE".to_string()));
    assert_eq!(d.reason, Some("need it".to_string()));
    assert_eq!(d.paths, Some(vec![Some("a.rs".to_string()), None, Some("b.rs".to_string())]));
    assert_eq!(d.keywords, None);
    let e = match parse_architect_reply("not json") {
        Err(e) => e,
        Ok(_) => panic!("the reply is not JSON"),
    };
    assert!(e.starts_with("Failed to parse Architect LLM's JSON response: "));
    assert!(e.ends_with(" - Original response: not json"));
}

fn decision(action: Option<&str>, reason: Option<&str>, paths: Option<Vec<Option<&str>>>, keywords: Option<&str>) -> ArchitectDecision {
    ArchitectDecision {
        action: action.map(|s| s.to_string()),
        reason: reason.map(|s| s.to_string()),
        paths: paths.map(|v| v.into_iter().map(|o| o.map(|s| s.to_string())).collect()),
        keywords: keywords.map(|s| s.to_string()),
        rendered: "R".to_string(),
    }
}

#[test]
fn fetch_decision_keeps_string_paths() {
    let mut c = AgentContext::new(3);
    let r = apply_architect_decision(&decision(Some("FETCH_SOURCE"), None, Some(vec![Some("a"), None]), None), &mut c);
    assert!(matches!(r, Ok(AgentState::FetchingSource(ref p)) if *p == strs(&["a"])));
    assert_eq!(
        c.thoughts,
        strs(&["Architect decision: R", "Architect Reason: No reason provided.", "Architect decided to FETCH_SOURCE."])
    );
}

#[test]
fn fetch_decision_without_paths_is_an_error() {
    let mut c = AgentContext::new(3);
    let r = apply_architect_decision(&decision(Some("FETCH_SOURCE"), Some("r"), None, None), &mut c);
    assert_eq!(r.err(), Some("FETCH_SOURCE action requires 'paths' array.".to_string()));
    let r = apply_architect_decision(&decision(Some("FETCH_SOURCE"), Some("r"), Some(vec![None]), None), &mut c);
    assert!(matches!(r, Ok(AgentState::ReadyToGenerate)));
    assert_eq!(c.thoughts.last().unwrap(), "Warning: FETCH_SOURCE with empty paths. Proceeding to GENERATE.");
}

#[test]
fn search_decision_needs_keywords() {
    let mut c = AgentContext::new(3);
    let r = apply_architect_decision(&decision(Some("SEARCH_MORE"), None, None, Some("  parser  ")), &mut c);
    assert!(matches!(r, Ok(AgentState::SearchingMore(ref k)) if k == "  parser  "));
    let r = apply_architect_decision(&decision(Some("SEARCH_MORE"), None, None, Some("   ")), &mut c);
    assert!(matches!(r, Ok(AgentState::ReadyToGenerate)));
    let r = apply_architect_decision(&decision(Some("SEARCH_MORE"), None, None, None), &mut c);
    assert_eq!(r.err(), Some("SEARCH_MORE action requires 'keywords' string.".to_string()));
}

#[test]
fn other_decisions_generate() {
    let mut c = AgentContext::new(3);
    let r = apply_architect_decision(&decision(Some("GENERATE"), Some("enough"), None, None), &mut c);
    assert!(matches!(r, Ok(AgentState::ReadyToGenerate)));
    let r = apply_architect_decision(&decision(Some("DANCE"), None, None, None), &mut c);
    assert!(matches!(r, Ok(AgentState::ReadyToGenerate)));
    assert_eq!(c.thoughts.last().unwrap(), "Architect returned unknown action: 'DANCE'. Defaulting to GENERATE.");
    let r = apply_architect_decision(&decision(None, None, None, None), &mut c);
    assert_eq!(r.err(), Some("Architect decision missing 'action' field or not a string.".to_string()));
}

#[test]
fn loading_notes_unreadable_files() {
    let mut thoughts = Vec::new();
    let r = load_file_contents(&strs(&["a", "b", "a"]), &vec![Some("1".to_string()), None, Some("2".to_string())], &mut thoughts);
    assert_eq!(r, pairs(&[("a", "2")]));
    assert_eq!(thoughts, strs(&["Failed to read file: b"]));
}

#[test]
fn fetched_sources_replace_summaries() {
    let mut c = AgentContext::new(3);
    c.add_yaml_summary("a".to_string(), "sa".to_string());
    c.add_yaml_summary("b".to_string(), "sb".to_string());
    let s = handle_fetch_source(&mut c, &strs(&["a", "x"]), &vec![Some("src a".to_string()), None]);
    assert!(matches!(s, AgentState::ArchitectDecision));
    assert_eq!(c.file_contents_map, pairs(&[("a", "src a")]));
    assert_eq!(c.yaml_summaries, pairs(&[("b", "sb")]));
    assert_eq!(
        c.thoughts,
        strs(&[
            "--- FETCH_SOURCE: 2 files ---",
            "Failed to read file: x",
            "After FETCH_SOURCE: 1 files with full source, 1 YAML summaries.",
        ])
    );
}

#[test]
fn second_search_adds_new_summaries() {
    let mut c = AgentContext::new(3);
    c.add_file_content("src/a.rs".to_string(), "A".to_string());
    let hits = strs(&["/o/demo/src*a.rs.yml", "/o/demo/src*b.rs.yml", "junk", "/o/demo/src*c.rs.yml"]);
    let loaded = vec![
        Ok("desc a".to_string()),
        Ok("desc b".to_string()),
        Err("unused".to_string()),
        Err("broken".to_string()),
    ];
    let s = handle_search_more(&mut c, "demo", "kw", &hits, &loaded);
    assert!(matches!(s, AgentState::ArchitectDecision));
    assert_eq!(c.yaml_summaries, pairs(&[("src/b.rs", "desc b")]));
    assert_eq!(
        c.thoughts,
        strs(&[
            "--- SEARCH_MORE: 'kw' ---",
            "Refined BM25F search returned 4 results.",
            "Added new YAML summary from refined search: src/b.rs",
            "Could not extract target path from YAML hit: junk",
            "Failed to parse YAML for refined BM25F result: src/c.rs. Error: broken",
            "After SEARCH_MORE: 1 files with full source, 1 YAML summaries.",
        ])
    );
}

#[test]
fn first_search_fills_the_context() {
    let p = project();
    let mut c = AgentContext::new(3);
    let (relevant, suggested) = start_initial_search(&mut c, &p, &strs(&["a.rs", "zzz"]), &strs(&["/work/demo/src/b.rs"]), &vec![]);
    assert_eq!(relevant, strs(&["/work/demo/src/a.rs", "/work/demo/src/b.rs"]));
    assert_eq!(suggested, strs(&["/work/demo/src/a.rs"]));
    let s = finish_initial_search(
        &mut c,
        &relevant,
        &suggested,
        &vec![Some("fn a() {}".to_string()), Some("unused".to_string())],
        &vec![Some("unused".to_string()), Some("does b".to_string())],
        "/out/demo",
    );
    assert!(matches!(s, AgentState::ArchitectDecision));
    assert_eq!(c.file_contents_map, pairs(&[("/work/demo/src/a.rs", "fn a() {}")]));
    assert_eq!(c.yaml_summaries, pairs(&[("/work/demo/src/b.rs", "does b")]));
    assert_eq!(
        c.thoughts,
        strs(&[
            "Could not normalize suggested vector file path: zzz",
            "Consolidating search results and populating file context.",
            "Total unique relevant files identified across all searches: 2.",
            "Added full source (from LLM vector suggestion): /work/demo/src/a.rs",
            "Currently have 1 files with full source and 1 YAML summaries.",
        ])
    );
}

#[test]
fn populate_falls_back_to_summaries() {
    let mut thoughts = Vec::new();
    let (contents, summaries) = populate_file_context(
        &strs(&["s/x.rs", "y.rs"]),
        &strs(&["s/x.rs"]),
        &vec![None, None],
        &vec![Some("dx".to_string()), None],
        "/out/p",
        &mut thoughts,
    );
    assert!(contents.is_empty());
    assert_eq!(summaries, pairs(&[("s/x.rs", "dx")]));
    assert_eq!(
        thoughts,
        strs(&[
            "Failed to read suggested file for full source: s/x.rs. Trying YAML description.",
            "Added YAML description (suggested source failed): s/x.rs",
            "Failed to get YAML description for y.rs: /out/p/y.rs.yml",
        ])
    );
}

#[test]
fn generation_context_is_sorted() {
    let mut c = AgentContext::new(3);
    c.add_file_content("b".to_string(), "B".to_string());
    c.add_file_content("a".to_string(), "A".to_string());
    c.add_yaml_summary("s".to_string(), "S".to_string());
    let g = prepare_generation(&pairs(&[("s", "old"), ("t", "T")]), &mut c);
    assert_eq!(g.context_files, strs(&["a", "b"]));
    assert_eq!(g.file_contents_for_llm, "--- FILE: a ---\nA\n\n--- FILE: b ---\nB\n\n");
    assert_eq!(g.combined_descriptions, pairs(&[("s", "S"), ("t", "T")]));
    assert_eq!(
        c.thoughts,
        strs(&[
            "Final list of files with full source content: 2.",
            "Constructing file content string for the main LLM prompt.",
            "Combined project descriptions with 1 filtered proactive descriptions for final LLM.",
        ])
    );
}

#[test]
fn answer_messages_carry_the_context() {
    let u = agent_user_message("hi", &Some("abc".to_string()), &strs(&["a"]), &"gemini".to_string(), &None, &strs(&["h"]));
    assert_eq!(u.role, "user");
    assert_eq!(u.content, "hi");
    assert!(u.timestamp.is_some());
    assert_eq!(u.context_files, Some(strs(&["a"])));
    let m = agent_model_message("ok".to_string(), &None, &strs(&["a"]), &"gemini".to_string(), &None, &strs(&[]), &strs(&["t1"]));
    assert_eq!(m.role, "model");
    assert_eq!(m.thoughts, Some(strs(&["t1"])));
}

#[test]
fn analysis_block_and_fields() {
    assert_eq!(AgentService::analysis_json_block("x ```json\n {\"a\": 1} \n``` y"), "{\"a\": 1}");
    assert_eq!(AgentService::analysis_json_block("no block"), "");
    let mut thoughts = Vec::new();
    let raw = "Sure:\n```json\n{&quot;suggested_files&quot;: [&quot;a.rs&quot;, &quot;a.rs&quot;, 1, &quot;b.rs&quot;], &quot;bm25_keywords&quot;: &quot;parse yaml&quot;}\n```".to_string();
    let (files, kw) = AgentService::read_llm_analysis(raw, &mut thoughts).unwrap();
    assert_eq!(files, strs(&["a.rs", "b.rs"]));
    assert_eq!(kw, "parse yaml");
    assert_eq!(
        thoughts,
        strs(&["LLM Analysis suggested 2 files for full source from vector search.", "LLM Analysis provided BM25 keywords: 'parse yaml'"])
    );
    let err = AgentService::read_llm_analysis("nothing".to_string(), &mut thoughts).unwrap_err();
    assert!(err.starts_with("Failed to parse LLM analysis JSON: "));
}

#[test]
fn summaries_with_equal_paths_keep_their_order() {
    let summaries = pairs(&[("b", "2"), ("a", "first"), ("c", "3"), ("a", "second")]);
    let sources = pairs(&[("c", "src")]);
    assert_eq!(
        select_summaries(&summaries, &sources, 10),
        pairs(&[("a", "first"), ("a", "second"), ("b", "2")])
    );
}

#[test]
fn summaries_are_loaded_by_path() {
    let mut thoughts = vec![];
    let r = load_yaml_summaries(&strs(&["a.rs", "b.rs"]), &vec![None, Some("B".to_string())], &mut thoughts);
    assert_eq!(r, pairs(&[("b.rs", "B")]));
    assert_eq!(thoughts, strs(&["Failed to load YAML for: a.rs"]));
}

#[test]
fn single_turn_fetch_keeps_every_entry() {
    let mut c = AgentContext::new(1);
    let r = AgentService::decide_single_turn(&decision(Some("FETCH_SOURCE"), None, Some(vec![Some("a"), None]), None), &mut c);
    assert!(matches!(r, Ok(TurnAction::Fetch(ref p)) if *p == vec![Some("a".to_string()), None]));
    assert_eq!(
        c.thoughts,
        strs(&["Architect decision: R", "Architect Reason: No reason provided.", "Architect decided to FETCH_SOURCE."])
    );
    let r = AgentService::decide_single_turn(&decision(Some("FETCH_SOURCE"), Some("r"), None, None), &mut c);
    assert_eq!(r.err(), Some("FETCH_SOURCE action requires 'paths' array.".to_string()));
}

#[test]
fn single_turn_search_and_other_actions() {
    let mut c = AgentContext::new(1);
    let r = AgentService::decide_single_turn(&decision(Some("SEARCH_MORE"), Some("why"), None, Some("   ")), &mut c);
    assert!(matches!(r, Ok(TurnAction::Search(ref k)) if k == "   "));
    assert_eq!(c.thoughts[1], "Architect Reason: why");
    let r = AgentService::decide_single_turn(&decision(Some("SEARCH_MORE"), None, None, None), &mut c);
    assert_eq!(r.err(), Some("SEARCH_MORE action requires 'keywords' string.".to_string()));
    let r = AgentService::decide_single_turn(&decision(Some("GENERATE"), None, None, None), &mut c);
    assert!(matches!(r, Ok(TurnAction::Generate)));
    assert_eq!(c.thoughts.last().unwrap(), "Architect decided to GENERATE directly.");
    let r = AgentService::decide_single_turn(&decision(Some("DANCE"), None, None, None), &mut c);
    assert!(matches!(r, Ok(TurnAction::Generate)));
    assert_eq!(c.thoughts.last().unwrap(), "Architect returned an unknown action: DANCE. Proceeding with current context.");
    let r = AgentService::decide_single_turn(&decision(None, None, None, None), &mut c);
    assert_eq!(r.err(), Some("Architect decision missing 'action' field or not a string.".to_string()));
}

#[test]
fn single_turn_fetch_targets() {
    let p = project();
    let mut c = AgentContext::new(1);
    c.add_file_content("/work/demo/src/a.rs".to_string(), "A".to_string());
    let paths = vec![Some("a.rs".to_string()), Some("src/b.rs".to_string()), Some("nowhere.rs".to_string())];
    let (ps, ts) = AgentService::fetch_targets(&p, &c, &paths).unwrap();
    assert_eq!(ps, strs(&["a.rs", "src/b.rs", "nowhere.rs"]));
    assert_eq!(ts, vec![None, Some("/work/demo/src/b.rs".to_string()), None]);
    let r = AgentService::fetch_targets(&p, &c, &vec![Some("a.rs".to_string()), None]);
    assert_eq!(r.err(), Some("Path in 'paths' array is not a string.".to_string()));
}

#[test]
fn single_turn_fetch_notes_each_path() {
    let p = project();
    let mut c = AgentContext::new(1);
    c.add_file_content("/work/demo/src/a.rs".to_string(), "A".to_string());
    c.add_yaml_summary("/work/demo/src/b.rs".to_string(), "sb".to_string());
    AgentService::fetch_in_turn(
        &mut c,
        &p,
        &strs(&["a.rs", "src/b.rs", "nowhere.rs", "/work/demo/src/c.rs"]),
        &vec![None, Some("B src".to_string()), None, None],
    );
    assert_eq!(c.file_contents_map, pairs(&[("/work/demo/src/a.rs", "A"), ("/work/demo/src/b.rs", "B src")]));
    assert!(c.yaml_summaries.is_empty());
    assert_eq!(
        c.thoughts,
        strs(&[
            "File already in active context, skipping fetch: /work/demo/src/a.rs",
            "Fetched full source for: /work/demo/src/b.rs",
            "Could not normalize path for fetching: nowhere.rs",
            "Failed to read file: /work/demo/src/c.rs",
        ])
    );
}

#[test]
fn single_turn_search_adds_new_summaries() {
    let mut c = AgentContext::new(1);
    c.add_file_content("src/a.rs".to_string(), "A".to_string());
    let hits = strs(&["/o/demo/src*a.rs.yml", "/o/demo/src*b.rs.yml", "junk", "/o/demo/src*c.rs.yml"]);
    let loaded = vec![
        Ok("desc a".to_string()),
        Ok("desc b".to_string()),
        Err("unused".to_string()),
        Err("broken".to_string()),
    ];
    AgentService::search_in_turn(&mut c, "demo", "kw", "[hits]", &hits, &loaded);
    assert_eq!(c.yaml_summaries, pairs(&[("src/b.rs", "desc b")]));
    assert_eq!(
        c.thoughts,
        strs(&[
            "Performing refined BM25F search with keywords: kw",
            "Refined BM25F search returned: [hits]",
            "Added new YAML summary from refined search: src/b.rs",
            "Could not extract target path from YAML hit: junk",
            "Failed to parse YAML for refined BM25F result: src/c.rs. Error: broken",
        ])
    );
}

#[test]
fn single_turn_consolidation_counts_the_paths() {
    let p = project();
    let mut c = AgentContext::new(1);
    let r = AgentService::consolidate_initial_search(
        &mut c,
        &p,
        &strs(&["a.rs", "/work/demo/src/b.rs"]),
        &strs(&["src/b.rs", "nowhere.rs"]),
        &strs(&["/x/demo//work*demo*src*c.rs.yml", "bad"]),
    );
    assert_eq!(r, strs(&["/work/demo/src/a.rs", "/work/demo/src/b.rs", "/work/demo/src/c.rs"]));
    assert_eq!(
        c.thoughts,
        strs(&[
            "Could not normalize path from raw vector search results: nowhere.rs",
            "Could not extract target path from YAML hit: bad",
            "Total unique relevant files identified across all searches: 3.",
        ])
    );
}

#[test]
fn single_turn_generation_counts_all_descriptions() {
    let mut c = AgentContext::new(1);
    c.add_file_content("b".to_string(), "B".to_string());
    c.add_yaml_summary("s".to_string(), "S".to_string());
    c.add_yaml_summary("u".to_string(), "U".to_string());
    let g = AgentService::prepare_turn_generation(&pairs(&[("s", "old"), ("t", "T")]), &mut c);
    assert_eq!(g.context_files, strs(&["b"]));
    assert_eq!(g.combined_descriptions, pairs(&[("s", "S"), ("t", "T"), ("u", "U")]));
    assert_eq!(
        c.thoughts,
        strs(&[
            "Final list of files with full source content: 1.",
            "Constructing file content string for the main LLM prompt.",
            "Combined project descriptions with 3 filtered proactive descriptions for final LLM.",
        ])
    );
}
