use code_assistant::embedding::{
    edited_summary_source, embedding_source_path, plan_embedding_refresh, record_embedding, summary_edited_since_embedding,
    ChangeFacts,
};
use code_assistant::file_service::{
    allowed_extensions, has_allowed_extension, listed_as_excluded, path_extension, project_needs_update, specific_file_candidates,
    validate_file_paths, yaml_path_for, FileService, FileServiceError, UpdateFacts,
};
use code_assistant::models::{EmbeddingMetadata, Project};
use code_assistant::services::{GitService, StatusFlags};

fn strs(v: &[&str]) -> Vec<String> {
    v.iter().map(|s| s.to_string()).collect()
}

fn meta(path: &str, t: i128, hash: Option<&str>) -> EmbeddingMetadata {
    EmbeddingMetadata { file_path: path.to_string(), last_updated: t, vector_id: "id".to_string(), git_blob_hash: hash.map(|s| s.to_string()) }
}

fn project() -> Project {
    Project {
        name: "demo".to_string(),
        languages: "rs, py,js".to_string(),
        source_dir: "/src/demo".to_string(),
        model: "gemini".to_string(),
        provider: "gemini".to_string(),
        specific_model: None,
        file_descriptions: vec![
            ("/src/demo/a.rs".to_string(), "A".to_string()),
            ("b.rs".to_string(), "B".to_string()),
            ("/src/demo/c.rs".to_string(), "C".to_string()),
        ],
        embeddings: vec![("s/x.rs".to_string(), meta("s/x.rs", 100, Some("h1"))), ("s/y.rs".to_string(), meta("s/y.rs", 100, None))],
        git_integration_enabled: true,
        default_use_yaml: true,
        file_yaml_override: vec![("s/y.rs".to_string(), false)],
    }
}

#[test]
fn language_setting_gives_extensions() {
    assert_eq!(allowed_extensions("rs, py,js"), strs(&["rs", "py", "js"]));
    assert_eq!(allowed_extensions(" ts  tsx , "), strs(&["ts", "tsx"]));
    assert!(allowed_extensions("").is_empty());
}

#[test]
fn extensions_follow_path_rules() {
    assert_eq!(path_extension("/a/b/main.rs"), "rs");
    assert_eq!(path_extension("/a/.bashrc"), "");
    assert_eq!(path_extension("/a/archive.tar.gz"), "gz");
    assert_eq!(path_extension("/a/noext"), "");
    assert_eq!(path_extension("/a/x."), "");
    let exts = strs(&["rs", "py"]);
    assert!(has_allowed_extension("src/lib.rs", &exts));
    assert!(!has_allowed_extension("src/lib.go", &exts));
}

#[test]
fn path_comments_are_checked() {
    let p = project();
    let contents = vec![
        Some("// /src/demo/a.rs\nfn a() {}".to_string()),
        Some("// b.rs\n".to_string()),
        Some("// wrong\n".to_string()),
    ];
    assert_eq!(validate_file_paths(&p, &contents), vec![("/src/demo/c.rs".to_string(), false)]);
    let fs = FileService;
    assert!(fs.is_valid_path_comment(&p, "/src/demo/c.rs", Some("// /src/demo/c.rs")));
    assert!(!fs.is_valid_path_comment(&p, "/src/demo/c.rs", None));
    assert!(!fs.is_valid_path_comment(&p, "/src/demo/c.rs", Some("")));
    assert_eq!(fs.validate_file_paths(&p, &vec![None, None, None]).len(), 3);
}

#[test]
fn summary_and_candidate_paths() {
    assert_eq!(yaml_path_for("/out", "demo", "/src/demo/a/b.rs"), "/out/demo/*src*demo*a*b.rs.yml");
    let (a, b) = specific_file_candidates(&project(), "/x/y.rs");
    assert_eq!(a, "/x/y.rs");
    assert_eq!(b, "/src/demo/x/y.rs");
}

fn facts(path: &str, ignored: bool, exists: bool, hash: Option<&str>, s: Option<i128>, y: Option<i128>) -> UpdateFacts {
    UpdateFacts {
        source_path: path.to_string(),
        ignored,
        yaml_exists: exists,
        change: ChangeFacts { git_blob_hash: hash.map(|h| h.to_string()), source_modified: s, yaml_modified: y },
    }
}

#[test]
fn summaries_are_renewed_when_stale() {
    let p = project();
    let fs = FileService;
    assert!(!fs.needs_yaml_update(&p, &facts("s/x.rs", true, false, None, None, None)));
    assert!(fs.needs_yaml_update(&p, &facts("s/x.rs", false, false, None, None, None)));
    assert!(!fs.needs_yaml_update(&p, &facts("s/x.rs", false, true, Some("h1"), None, None)));
    assert!(fs.needs_yaml_update(&p, &facts("s/x.rs", false, true, Some("h2"), None, None)));
    assert!(fs.needs_yaml_update(&p, &facts("s/y.rs", false, true, Some("h"), None, None)));
    assert!(fs.needs_yaml_update(&p, &facts("s/new.rs", false, true, Some("h"), None, None)));
    assert!(fs.needs_yaml_update(&p, &facts("s/x.rs", false, true, None, Some(5), Some(4))));
    assert!(!fs.needs_yaml_update(&p, &facts("s/x.rs", false, true, None, Some(4), Some(4))));
    assert!(fs.needs_yaml_update(&p, &facts("s/x.rs", false, true, None, None, Some(4))));
    assert!(project_needs_update(&p, &vec![facts("s/x.rs", true, false, None, None, None), facts("s/x.rs", false, false, None, None, None)]));
    assert!(!fs.project_needs_update(&p, &vec![]));
}

#[test]
fn embedding_refresh_decisions() {
    let p = project();
    assert_eq!(embedding_source_path("s*x.rs.yml"), Some("s/x.rs".to_string()));
    assert_eq!(embedding_source_path("project_settings.json"), None);
    assert_eq!(embedding_source_path(".yml"), None);
    let none = plan_embedding_refresh(&p, "s*x.rs.yml", ChangeFacts { git_blob_hash: Some("h1".to_string()), source_modified: None, yaml_modified: None });
    assert!(none.is_none());
    let plan = plan_embedding_refresh(&p, "s*y.rs.yml", ChangeFacts { git_blob_hash: None, source_modified: Some(150), yaml_modified: Some(50) }).unwrap();
    assert_eq!(plan.source_path, "s/y.rs");
    assert!(!plan.use_yaml);
    let stale_yaml = plan_embedding_refresh(&p, "s*x.rs.yml", ChangeFacts { git_blob_hash: None, source_modified: Some(50), yaml_modified: Some(150) });
    assert!(stale_yaml.unwrap().use_yaml);
    assert!(plan_embedding_refresh(&p, "s*x.rs.yml", ChangeFacts { git_blob_hash: None, source_modified: Some(50), yaml_modified: Some(90) }).is_none());
}

#[test]
fn stored_embedding_is_recorded() {
    let mut p = project();
    record_embedding(&mut p, "s/x.rs".to_string(), "v2".to_string(), 7, Some("h9".to_string()));
    assert_eq!(p.embeddings.len(), 2);
    assert_eq!(p.embeddings[0].1.vector_id, "v2");
    assert_eq!(p.embeddings[0].1.last_updated, 7);
    record_embedding(&mut p, "s/z.rs".to_string(), "v3".to_string(), 8, None);
    assert_eq!(p.embeddings.len(), 3);
    assert_eq!(p.embeddings[2].0, "s/z.rs");
}

#[test]
fn hand_edited_summaries() {
    let p = project();
    assert_eq!(edited_summary_source("project_settings.yml"), None);
    assert_eq!(edited_summary_source("a*b.yml"), Some("a/b".to_string()));
    assert!(summary_edited_since_embedding(&p, &"unknown".to_string(), None));
    assert!(summary_edited_since_embedding(&p, &"s/x.rs".to_string(), Some(101)));
    assert!(!summary_edited_since_embedding(&p, &"s/x.rs".to_string(), None));
}

#[test]
fn error_messages() {
    assert_eq!(FileServiceError::TraversalAttempt.message(), "Attempted directory traversal");
    assert_eq!(FileServiceError::InvalidPath.message(), "Invalid file path");
    assert_eq!(FileServiceError::Io("denied".to_string()).message(), "IO error: denied");
}

#[test]
fn files_listed_as_excluded_from_search() {
    let exts = vec!["rs".to_string(), "py".to_string()];
    let pats = vec!["gen/*".to_string(), "notes.rs".to_string()];
    assert!(listed_as_excluded(Some("gen/a.rs"), "/p/gen/a.rs", &exts, &pats));
    assert!(listed_as_excluded(Some("notes.rs"), "/p/notes.rs", &exts, &pats));
    assert!(!listed_as_excluded(Some("gen/a.txt"), "/p/gen/a.txt", &exts, &pats));
    assert!(!listed_as_excluded(Some("src/a.rs"), "/p/src/a.rs", &exts, &pats));
    assert!(!listed_as_excluded(None, "/elsewhere/gen/a.rs", &exts, &pats));
}

#[test]
fn uncommitted_changes_ignore_untracked_and_ignored_paths() {
    let f = |current: bool, ignored: bool, wt_new: bool| StatusFlags { current, ignored, wt_new };
    assert!(!GitService::has_uncommitted_changes(&vec![]));
    assert!(!GitService::has_uncommitted_changes(&vec![f(true, false, false), f(false, true, false), f(false, false, true)]));
    assert!(GitService::has_uncommitted_changes(&vec![f(false, true, false), f(false, false, false)]));
}

#[test]
fn recording_an_embedding_keeps_the_other_settings() {
    let mut p = project();
    record_embedding(&mut p, "s/z.rs".to_string(), "v3".to_string(), 8, None);
    let q = project();
    assert_eq!(p.name, q.name);
    assert_eq!(p.languages, q.languages);
    assert_eq!(p.source_dir, q.source_dir);
    assert_eq!(p.model, q.model);
    assert_eq!(p.provider, q.provider);
    assert_eq!(p.specific_model, q.specific_model);
    assert_eq!(p.file_descriptions, q.file_descriptions);
    assert_eq!(p.file_yaml_override, q.file_yaml_override);
    assert_eq!(p.git_integration_enabled, q.git_integration_enabled);
    assert_eq!(p.default_use_yaml, q.default_use_yaml);
}
