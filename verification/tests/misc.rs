use code_assistant::env_settings::{env_file_content, read_env_keys, EnvKeys};
use code_assistant::html::{escape_html, unescape_html};
use code_assistant::models::Project;
use code_assistant::paths::{construct_source_path, source_path_for_summary, PathUtils};

fn project() -> Project {
    Project {
        name: "demo".to_string(),
        languages: "rs".to_string(),
        source_dir: "src".to_string(),
        model: "gemini".to_string(),
        provider: "gemini".to_string(),
        specific_model: None,
        file_descriptions: vec![("src/models/mod.rs".to_string(), "M".to_string())],
        embeddings: vec![],
        git_integration_enabled: false,
        default_use_yaml: true,
        file_yaml_override: vec![],
    }
}

#[test]
fn html_escaping() {
    assert_eq!(escape_html("a<b>&\"c\"\r\nd".to_string()), "a&lt;b&gt;&amp;&#34;c&#34;\nd");
    assert_eq!(unescape_html("&lt;x&gt; &amp;amp; &#39;q&#39; &quot;".to_string()), "<x> &amp; 'q' \"");
    assert_eq!(unescape_html("&#96;&#96;&#96;".to_string()), "&grave;&grave;&grave;");
}

#[test]
fn escaped_text_reads_back() {
    let text = "if a < b && c > d { \"x\" }\nnext line";
    assert_eq!(unescape_html(escape_html(text.to_string())), text);
}

#[test]
fn project_paths_are_normalized() {
    let p = project();
    assert_eq!(PathUtils::normalize_project_path("src\\models\\mod.rs", &p), Some("src/models/mod.rs".to_string()));
    assert_eq!(PathUtils::normalize_project_path("/src/models/mod.rs", &p), Some("src/models/mod.rs".to_string()));
    assert_eq!(PathUtils::normalize_project_path("models/mod.rs", &p), Some("src/models/mod.rs".to_string()));
    assert_eq!(PathUtils::normalize_project_path("mod.rs", &p), Some("src/models/mod.rs".to_string()));
    assert_eq!(PathUtils::normalize_project_path("other.rs", &p), None);
}

#[test]
fn summary_files_name_their_sources() {
    assert_eq!(construct_source_path("/work", "/out/demo/src*a.rs.yml"), "/work/src/a.rs");
    assert_eq!(source_path_for_summary("/work", "/out/demo/lib.rs.yml"), Some("/work/lib.rs".to_string()));
    assert_eq!(source_path_for_summary("/work", "/"), None);
}

#[test]
fn env_file_round_trip() {
    let keys = EnvKeys {
        open_ai_key: "sk-1".to_string(),
        open_ai_org: String::new(),
        gemini_api_key: "g-2".to_string(),
        anthropic_api_key: "a-3".to_string(),
    };
    let text = env_file_content(&keys);
    assert_eq!(text, "OPEN_AI_KEY=sk-1\nGEMINI_API_KEY=g-2\nANTHROPIC_API_KEY=a-3\n");
    let back = read_env_keys(&text);
    assert_eq!(back.open_ai_key, "sk-1");
    assert_eq!(back.open_ai_org, "");
    assert_eq!(back.gemini_api_key, "g-2");
    assert_eq!(back.anthropic_api_key, "a-3");
}

#[test]
fn env_values_stop_at_a_second_equals_sign() {
    let k = read_env_keys("OTHER=1\nOPEN_AI_ORG=org=extra\nOPEN_AI_KEY\n");
    assert_eq!(k.open_ai_org, "org");
    assert_eq!(k.open_ai_key, "");
}

#[test]
fn entities_in_the_text_survive_a_round_trip() {
    let text = "&lt; is written for <, and &amp;amp; for &amp; \"&#34;\" 'x'\r\nend";
    assert_eq!(unescape_html(escape_html(text.to_string())), text.replace("\r\n", "\n"));
}
