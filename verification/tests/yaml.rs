use code_assistant::models::{EmbeddingMetadata, Project};
use code_assistant::yaml_processing::{
    generate_html, is_file_ignored, parse_description, read_ignore_patterns, source_path_for_yaml_name, yaml_name_for_source,
    YamlEntry, YamlProcessing,
};
use code_assistant::yaml_service::{keyword_ranking, GenerationStep, SummaryFacts, YamlManagement, YamlService};

fn strs(v: &[&str]) -> Vec<String> {
    v.iter().map(|s| s.to_string()).collect()
}

fn project() -> Project {
    Project {
        name: "demo".to_string(),
        languages: "rs".to_string(),
        source_dir: "/src".to_string(),
        model: "gemini".to_string(),
        provider: "gemini".to_string(),
        specific_model: None,
        file_descriptions: vec![],
        embeddings: vec![(
            "gone.rs".to_string(),
            EmbeddingMetadata { file_path: "gone.rs".to_string(), last_updated: 0, vector_id: "v".to_string(), git_blob_hash: None },
        )],
        git_integration_enabled: false,
        default_use_yaml: true,
        file_yaml_override: vec![("notes.txt".to_string(), false)],
    }
}

#[test]
fn descriptions_inline_and_block() {
    assert_eq!(parse_description("---\ndescription: \"Parses input\"\nfunctions: []\n"), Some("Parses input".to_string()));
    assert_eq!(parse_description("---\ndescription: |\n  line one\n  line two\nother: x\n"), Some("line one\nline two".to_string()));
    assert_eq!(parse_description("description: no front matter"), None);
    assert_eq!(YamlProcessing::new().parse_description("---\nname: x\n"), None);
}

#[test]
fn summary_names_round_trip() {
    assert_eq!(yaml_name_for_source("src/a/b.rs"), "src*a*b.rs.yml");
    assert_eq!(source_path_for_yaml_name("src*a*b.rs.yml"), "src/a/b.rs");
}

#[test]
fn ignore_patterns_are_read_and_applied() {
    let pats = read_ignore_patterns("# comment\n\n/target/\n*.log\nsecret.txt\n");
    assert_eq!(pats, strs(&["target/", "*.log", "secret.txt"]));
    assert!(is_file_ignored(Some("target/debug/x"), &pats, &vec![], &vec![]));
    assert!(is_file_ignored(Some("secret.txt"), &vec![], &vec![], &pats));
    assert!(!is_file_ignored(Some("src/main.rs"), &pats, &pats, &pats));
    assert!(!is_file_ignored(None, &pats, &pats, &pats));
}

#[test]
fn summary_block_and_description() {
    let mut descs = Vec::new();
    let html = generate_html("/o/demo/a.rs.yml", "a.rs", "---\ndescription: Does A\n```x```".to_string(), "demo", &mut descs, 250);
    assert_eq!(
        html,
        "<div class=\"page\"><p>---</p><h3 data-lines=\"250\">path: a.rs</h3><pre>description: Does A\nx</pre><button onclick=\"regenerate('demo', '/o/demo/a.rs.yml')\">Regenerate</button><button onclick=\"suggestSplit('demo', 'a.rs')\">Suggest Split</button></div>"
    );
    assert_eq!(descs, vec![("a.rs".to_string(), "Does A".to_string())]);
}

fn entry(name: &str, exists: bool, content: Result<&str, &str>) -> YamlEntry {
    YamlEntry {
        file_name: name.to_string(),
        yaml_path: format!("/o/demo/{}", name),
        is_yaml: name.ends_with(".yml"),
        source_exists: exists,
        ignored: false,
        content: content.map(|s| s.to_string()).map_err(|s| s.to_string()),
        line_count: 3,
    }
}

#[test]
fn summary_directory_walk() {
    let mut p = project();
    let entries = vec![
        entry("project_settings.json", true, Ok("{}")),
        entry("gone.rs.yml", false, Ok("")),
        entry("a.rs.yml", true, Ok("---\ndescription: A\n")),
    ];
    let (html, descs, cleanup, orphans) = YamlService::new().process_yaml_files(&entries, "demo", &mut p).unwrap();
    assert!(html.contains("path: a.rs"));
    assert_eq!(descs, vec![("a.rs".to_string(), "A".to_string())]);
    assert!(cleanup);
    assert_eq!(orphans, strs(&["gone.rs"]));
    assert!(p.embeddings.is_empty());
    let bad = vec![entry("b.rs.yml", true, Err("denied"))];
    assert_eq!(YamlService::new().process_yaml_files(&bad, "demo", &mut p).unwrap_err(), "Failed to read file: denied");
}

fn summary(path: &str, desc: &str, calls: &[&str]) -> SummaryFacts {
    SummaryFacts { path: path.to_string(), description: desc.to_string(), calls: strs(calls) }
}

#[test]
fn keyword_search_ranks_by_score() {
    let ss = vec![
        summary("/o/demo/a.rs.yml", "Parses YAML files", &[]),
        summary("/o/demo/parser.rs.yml", "nothing here", &["Yaml::load"]),
        summary("/o/demo/c.rs.yml", "unrelated", &[]),
    ];
    let r = keyword_ranking("YAML  parser yaml", &ss, 10);
    assert_eq!(r, vec![("/o/demo/a.rs.yml".to_string(), 6), ("/o/demo/parser.rs.yml".to_string(), 5)]);
    assert_eq!(keyword_ranking("   ", &ss, 10), vec![]);
    assert_eq!(YamlService::new().bm25f_rank("yaml", &ss, 1), vec![("/o/demo/a.rs.yml".to_string(), 6)]);
}

#[test]
fn summaries_get_their_imports() {
    let m = YamlManagement::new();
    assert_eq!(
        m.combine_yaml_with_imports("description: x", "/src/lib.rs", "use a::b;\nuse c;\nfn f() {}"),
        "description: x\n\nimports:\n  - a::b\n  - c"
    );
    assert_eq!(m.combine_yaml_with_imports("description: x", "/src/notes.txt", "use a::b;"), "description: x");
    assert_eq!(m.parsed_yaml_path(&project(), "src/a.rs", "/out"), "/out/demo/src*a.rs");
    assert_eq!(m.unreadable_yaml_message("/o/x", "x.rs"), "Failed to read YAML file /o/x (source x.rs): file not found");
}

#[test]
fn generation_steps() {
    let m = YamlManagement::new();
    let p = project();
    assert!(matches!(m.generation_step(&p, &"README.md".to_string(), false, false), GenerationStep::EmbedMarkdown));
    assert!(matches!(m.generation_step(&p, &"a.rs".to_string(), false, true), GenerationStep::GenerateYaml));
    assert!(matches!(m.generation_step(&p, &"a.rs".to_string(), true, false), GenerationStep::GenerateYaml));
    assert!(matches!(m.generation_step(&p, &"a.rs".to_string(), false, false), GenerationStep::Skip));
    assert!(matches!(m.generation_step(&p, &"notes.txt".to_string(), true, true), GenerationStep::Skip));
}

#[test]
fn summary_names_lead_back_to_their_sources() {
    for p in ["src/main.rs", "a/b/c/d.py", "plain.js", "x.y.ym/z.ts"] {
        assert_eq!(source_path_for_yaml_name(&yaml_name_for_source(p)), p);
    }
}

#[test]
fn ranking_is_best_first_and_limited() {
    let ss = vec![
        summary("/o/d/one.rs.yml", "one", &[]),
        summary("/o/d/two.rs.yml", "alpha beta", &["beta()"]),
        summary("/o/d/alpha.rs.yml", "alpha", &[]),
    ];
    let r = keyword_ranking("alpha beta", &ss, 2);
    assert_eq!(r, vec![("/o/d/two.rs.yml".to_string(), 16), ("/o/d/alpha.rs.yml".to_string(), 7)]);
}
