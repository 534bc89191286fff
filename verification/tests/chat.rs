use code_assistant::chat::{ChatManager, ChatMessage, QueryData, QueryManager};
use code_assistant::services::UpdateAutoCommitRequest;

fn message(role: &str, content: &str) -> ChatMessage {
    ChatMessage {
        role: role.to_string(),
        content: content.to_string(),
        hidden: false,
        commit_hash: None,
        timestamp: None,
        context_files: None,
        provider: None,
        model: None,
        hidden_context: None,
        thoughts: None,
        id: 0,
        parent_id: None,
    }
}

fn contents(v: &[ChatMessage]) -> Vec<String> {
    v.iter().map(|m| m.content.clone()).collect()
}

#[test]
fn added_messages_form_the_active_branch() {
    let cm = ChatManager::new();
    let mut qd = QueryData::empty();
    let a = cm.add_chat_message(&mut qd, message("user", "hello"), None);
    let b = cm.add_chat_message(&mut qd, message("model", "hi"), None);
    assert_eq!(qd.current_node_id, Some(b));
    let branch = cm.get_analysis_chat_history(Some(&qd));
    assert_eq!(contents(&branch), vec!["hello".to_string(), "hi".to_string()]);
    assert_eq!(branch[1].parent_id, Some(a));
}

#[test]
fn a_message_can_branch_off_an_earlier_one() {
    let cm = ChatManager::new();
    let mut qd = QueryData::empty();
    qd.add_message_with_id(message("user", "q"), 1, None);
    qd.add_message_with_id(message("model", "a1"), 2, None);
    qd.add_message_with_id(message("model", "a2"), 3, Some(1));
    let branch = cm.get_active_chat_branch(&qd.chat_nodes, qd.current_node_id);
    assert_eq!(contents(&branch), vec!["q".to_string(), "a2".to_string()]);
    cm.set_current_node(&mut qd, 2);
    assert_eq!(qd.current_node_id, Some(2));
}

#[test]
fn set_current_node_follows_a_linear_path() {
    let cm = ChatManager::new();
    let mut qd = QueryData::empty();
    qd.add_message_with_id(message("user", "q"), 10, None);
    qd.add_message_with_id(message("model", "a"), 11, None);
    qd.add_message_with_id(message("user", "q2"), 12, None);
    cm.set_current_node(&mut qd, 10);
    assert_eq!(qd.current_node_id, Some(12));
    cm.set_current_node(&mut qd, 99);
    assert_eq!(qd.current_node_id, Some(12));
}

#[test]
fn reset_empties_the_chat() {
    let cm = ChatManager::new();
    let mut qd = QueryData::empty();
    cm.add_chat_message(&mut qd, message("user", "x"), None);
    cm.reset_chat_history(&mut qd);
    assert!(qd.chat_nodes.is_empty());
    assert_eq!(qd.current_node_id, None);
    assert!(cm.get_analysis_chat_history(Some(&qd)).is_empty());
}

#[test]
fn linear_history_is_migrated() {
    let mut qd = QueryData::empty();
    qd.analysis_chat_history = vec![message("user", "one"), message("model", "two")];
    qd.migrate_history_with_ids(&vec![7, 8]);
    assert!(qd.analysis_chat_history.is_empty());
    assert_eq!(qd.current_node_id, Some(8));
    assert_eq!(qd.chat_nodes[1].parent_id, Some(7));
    let cm = ChatManager::new();
    assert_eq!(contents(&cm.get_analysis_chat_history(Some(&qd))), vec!["one".to_string(), "two".to_string()]);
}

#[test]
fn old_history_is_used_without_nodes() {
    let cm = ChatManager::new();
    let mut qd = QueryData::empty();
    qd.analysis_chat_history = vec![message("user", "old")];
    assert_eq!(contents(&cm.get_analysis_chat_history(Some(&qd))), vec!["old".to_string()]);
    assert!(cm.get_analysis_chat_history(None).is_empty());
}

#[test]
fn content_and_visibility_updates() {
    let cm = ChatManager::new();
    let mut qd = QueryData::empty();
    qd.add_message_with_id(message("user", "x"), 5, None);
    cm.update_message_content_at(&mut qd, 5, "y".to_string(), 42);
    assert_eq!(qd.chat_nodes[0].content, "y");
    assert_eq!(qd.chat_nodes[0].timestamp, Some(42));
    cm.update_message_visibility_at(&mut qd, 5, true, 43);
    assert!(qd.chat_nodes[0].hidden);
    cm.update_message_in_history(&mut qd, 6, "nothing".to_string());
    assert_eq!(qd.chat_nodes.len(), 1);
}

#[test]
fn query_titles_and_files() {
    let qm = QueryManager::new();
    let mut qd = QueryData::empty();
    qm.update_query_title(&mut qd, "My title");
    assert_eq!(qd.title, Some("My title".to_string()));
    assert_eq!(qm.query_display_title("abc.json", Some(&qd)), "My title");
    assert_eq!(qm.query_display_title("abc.json", Some(&QueryData::empty())), "abc");
    assert_eq!(qm.query_display_title("abc.json", None), "abc.json");
    assert_eq!(qm.get_queries_dir("/out/p"), "/out/p/queries");
    assert!(qm.generate_query_filename().ends_with(".json"));
    assert_eq!(qm.get_recent_query_id(&vec![("a".to_string(), "A".to_string()), ("b".to_string(), "B".to_string())]), Some("b".to_string()));
    assert_eq!(qm.get_recent_query_id(&vec![]), None);
}

#[test]
fn auto_commit_request_sets_the_flag() {
    let mut qd = QueryData::empty();
    let req = UpdateAutoCommitRequest { project_name: "p".to_string(), query_id: "q".to_string(), auto_commit: true };
    req.apply(&mut qd);
    assert!(qd.auto_commit);
}

#[test]
fn editing_a_message_keeps_the_branch() {
    let cm = ChatManager::new();
    let mut qd = QueryData::empty();
    qd.add_message_with_id(message("user", "q"), 1, None);
    qd.add_message_with_id(message("model", "a"), 2, None);
    qd.add_message_with_id(message("user", "q2"), 3, None);
    cm.update_message_content_at(&mut qd, 2, "edited".to_string(), 7);
    cm.update_message_visibility_at(&mut qd, 3, true, 8);
    let branch = cm.get_active_chat_branch(&qd.chat_nodes, qd.current_node_id);
    let ids: Vec<u128> = branch.iter().map(|m| m.id).collect();
    assert_eq!(ids, vec![1, 2, 3]);
    assert_eq!(contents(&branch), vec!["q".to_string(), "edited".to_string(), "q2".to_string()]);
    assert_eq!(branch[1].timestamp, Some(7));
    assert!(branch[2].hidden);
    assert!(!branch[0].hidden);
}

fn filled_record() -> QueryData {
    let mut qd = QueryData::empty();
    qd.query = "q".to_string();
    qd.title = Some("t".to_string());
    qd.vector_results = vec![("a.rs".to_string(), 5)];
    qd.context_files = vec!["b.rs".to_string()];
    qd.llm_analysis = "an".to_string();
    qd.auto_commit = true;
    qd.add_message_with_id(message("user", "hi"), 1, None);
    qd
}

#[test]
fn reset_and_retitle_keep_the_record() {
    let cm = ChatManager::new();
    let qm = QueryManager::new();
    let mut qd = filled_record();
    cm.reset_chat_history(&mut qd);
    assert!(qd.chat_nodes.is_empty());
    assert_eq!(qd.current_node_id, None);
    qm.update_query_title(&mut qd, "new");
    assert_eq!(qd.title, Some("new".to_string()));
    assert_eq!(qd.query, "q");
    assert_eq!(qd.vector_results, vec![("a.rs".to_string(), 5)]);
    assert_eq!(qd.context_files, vec!["b.rs".to_string()]);
    assert_eq!(qd.llm_analysis, "an");
    assert!(qd.auto_commit);
}

#[test]
fn generated_query_file_names_are_hyphenated_ids() {
    let qm = QueryManager::new();
    let a = qm.generate_query_filename();
    let b = qm.generate_query_filename();
    for name in [&a, &b] {
        let cs: Vec<char> = name.chars().collect();
        assert_eq!(cs.len(), 41);
        assert!(name.ends_with(".json"));
        for (i, c) in cs.iter().take(36).enumerate() {
            if i == 8 || i == 13 || i == 18 || i == 23 {
                assert_eq!(*c, '-');
            } else {
                assert!(c.is_ascii_hexdigit() && !c.is_ascii_uppercase());
            }
        }
        assert_eq!(cs[14], '4');
    }
    assert_ne!(a, b);
}

#[test]
fn reset_of_an_old_history_leaves_no_chat() {
    let cm = ChatManager::new();
    let mut qd = QueryData::empty();
    qd.query = "q".to_string();
    qd.analysis_chat_history = vec![message("user", "a"), message("model", "b")];
    let (r, name) = cm.reset_loaded_chat(Some(qd), "x.json");
    assert_eq!(name, "x.json");
    assert!(r.chat_nodes.is_empty());
    assert_eq!(r.current_node_id, None);
    assert!(r.analysis_chat_history.is_empty());
    assert_eq!(r.query, "q");

    let mut kept = QueryData::empty();
    kept.chat_nodes = vec![message("user", "n")];
    kept.current_node_id = Some(0);
    kept.analysis_chat_history = vec![message("user", "old")];
    let (r, _) = cm.reset_loaded_chat(Some(kept), "y.json");
    assert!(r.chat_nodes.is_empty());
    assert_eq!(r.current_node_id, None);
    assert_eq!(r.analysis_chat_history.len(), 1);

    let (r, name) = cm.reset_loaded_chat(None, "z.json");
    assert_eq!(name.chars().count(), 41);
    assert!(r.chat_nodes.is_empty() && r.analysis_chat_history.is_empty());
}
