use code_assistant::models::{EmbeddingMetadata, Project};
use code_assistant::services::{split_suggestion_prompt, ProjectService, SearchService};
use code_assistant::template::TemplateService;

fn strs(v: &[&str]) -> Vec<String> {
    v.iter().map(|s| s.to_string()).collect()
}

fn meta(p: &str) -> EmbeddingMetadata {
    EmbeddingMetadata { file_path: p.to_string(), last_updated: 0, vector_id: "v".to_string(), git_blob_hash: None }
}

fn project() -> Project {
    Project {
        name: "demo".to_string(),
        languages: "rs".to_string(),
        source_dir: "/src/demo".to_string(),
        model: "openai".to_string(),
        provider: "openai".to_string(),
        specific_model: None,
        file_descriptions: vec![("a.rs".to_string(), "Does A".to_string())],
        embeddings: vec![("x.rs".to_string(), meta("x.rs")), ("y.rs".to_string(), meta("y.rs"))],
        git_integration_enabled: false,
        default_use_yaml: true,
        file_yaml_override: vec![],
    }
}

#[test]
fn common_prefix_of_paths() {
    let t = TemplateService::new();
    assert_eq!(t.common_path_prefix("/a/b/c.rs", "/a/b/d.rs"), "/a/b/");
    assert_eq!(t.common_path_prefix("x/y", "z/y"), "/");
    assert_eq!(t.common_path_prefix("same", "same"), "same/");
}

#[test]
fn file_graph_lists_files_without_their_common_prefix() {
    let t = TemplateService::new();
    let descs = vec![("/p/src/b.rs".to_string(), "B".to_string()), ("/p/src/a.rs".to_string(), "A".to_string())];
    let html = t.generate_file_graph_html("demo", &descs);
    assert_eq!(
        html,
        "<div id=\"graphDiv\"><input type=\"checkbox\" id=\"fileGraph\">\n    <label for=\"fileGraph\" style=\"cursor: pointer; font-weight: bold;\">Show File Graph</label>\n    <pre><button onclick=\"validateFilePaths('demo')\">Validate File Path Comments</button><br>a.rs // A\nb.rs // B</pre></div>"
    );
    let one = t.generate_file_graph_html("demo", &vec![("/p/only.rs".to_string(), "O".to_string())]);
    assert!(one.contains("<br> // O</pre>"));
}

#[test]
fn file_lists_mark_selected_files() {
    let t = TemplateService::new();
    let html = t.generate_file_list(&strs(&["a", "b"]), &strs(&["b"]));
    assert_eq!(
        html,
        "<div class=\"file-item\">\n                        <input type=\"checkbox\" class=\"file-checkbox\" value=\"a\" > a\n                    </div>\n<div class=\"file-item\">\n                        <input type=\"checkbox\" class=\"file-checkbox\" value=\"b\" checked> b\n                    </div>"
    );
    let other = t.generate_other_files_list(&project(), &strs(&["x.rs"]), &vec![]);
    assert!(other.contains("value=\"y.rs\""));
    assert!(!other.contains("value=\"x.rs\""));
}

#[test]
fn other_files_include_excluded_search_files() {
    let t = TemplateService::new();
    assert_eq!(t.get_other_files_list_raw(&project(), &strs(&["y.rs"]), &strs(&["z.md", "y.rs"])), strs(&["x.rs", "z.md"]));
}

#[test]
fn project_page_selects_the_model() {
    let t = TemplateService::new();
    let page = t.render_project_page(&project(), "<results/>", "<yaml/>", "q");
    assert!(page.contains("<option value=\"openai\" selected> OpenAI</option>"));
    assert!(page.contains("<option value=\"gemini\" > Gemini</option>"));
    assert!(page.contains("<p>Source Directory: /src/demo</p>"));
    assert!(page.contains("<results/>"));
    assert!(page.contains("import { suggestSplit } from '/static/split-file.js';"));
}

#[test]
fn analysis_page_lists_files() {
    let t = TemplateService::new();
    let page = t.render_analyze_query_page("demo", "why?", &strs(&["x.rs"]), &strs(&["x.rs"]), &project(), "<chat/>");
    assert!(page.contains("<title>Code Analysis - demo</title>"));
    assert!(page.contains("value=\"x.rs\" checked> x.rs"));
    assert!(page.contains("value=\"y.rs\" > y.rs"));
    assert!(page.contains("<chat/>"));
}

#[test]
fn search_prompt_holds_the_found_code() {
    let s = SearchService::new();
    let p = project();
    let found = s.search_matches(&p, &strs(&["a.rs", "b.rs"]), &vec![Some("fn a() {}".to_string()), None]);
    assert_eq!(found[0].file_description, Some("Does A".to_string()));
    assert_eq!(found[1].file_content, "");
    let prompt = s.search_analysis_prompt("find a", &p, &found);
    assert!(prompt.starts_with("User Query: \"find a\"\n\nFile Descriptions:\n```\na.rs: Does A\n```\n\nRelated code from vector search:\n```\n// File: a.rs\nDoes A\nfn a() {}\n\n// File: b.rs\n\n\n\n\n```\n\n"));
}

#[test]
fn split_prompt_holds_the_file() {
    let p = split_suggestion_prompt(&project(), "a.rs", "fn a() {}");
    assert!(p.starts_with("a.rs: Does A\nAbove is the descriptions for the files in this project."));
    assert!(p.ends_with("File content:\n```\nfn a() {}\n```\n\n"));
}

#[test]
fn orphaned_embeddings_are_dropped() {
    let ps = ProjectService::new();
    let mut p = project();
    let removed = ps.drop_orphaned_embeddings(&mut p, &vec![true, false]);
    assert_eq!(removed, strs(&["x.rs"]));
    assert_eq!(p.embeddings.len(), 1);
    assert_eq!(p.embeddings[0].0, "y.rs");
    let html = ps.yaml_files_html("demo", "<body/>", &vec![]);
    assert!(html.ends_with("</pre></div><h2 style='text-align: center;'>YAML Representations</h2><body/>"));
}

#[test]
fn search_results_block() {
    let t = TemplateService::new();
    let results = vec![("src/a.rs".to_string(), format!("{:.4}", 0.5f32)), ("src/b.rs".to_string(), "0.2500".to_string())];
    let html = t.render_search_results("find x", &results, "line1\nline2", "demo", "q1.json");
    let expected = String::from("<div class=\"search-results\">\n            <h2>Search Results for: \"find x\"</h2>\n            <div class=\"result-files\">")
        + "<div class=\"result-file\">\n                <h3>src/a.rs (Score: 0.5000)</h3>\n            </div>"
        + "<div class=\"result-file\">\n                <h3>src/b.rs (Score: 0.2500)</h3>\n            </div>"
        + "</div>\n        <div class=\"llm-analysis\">\n            <h2>Analysis</h2>\n            <div class=\"analysis-content\">\n                line1<br>line2\n            </div>\n        </div>"
        + "<div class=\"query-actions\">\n                <form action=\"/analyze-query/demo/q1.json\" method=\"get\">\n                    <input type=\"hidden\" name=\"query\" value=\"find x\">\n                    <button type=\"submit\" class=\"analyze-button\">Chat with Analysis</button>\n                </form>\n            </div>";
    assert_eq!(html, expected);
    let transient = t.render_search_results("q", &vec![], "", "demo", "transient_query_id");
    assert!(!transient.contains("query-actions"));
    assert!(transient.ends_with("</div>\n        </div>"));
}
