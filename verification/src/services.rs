//! The services that hold no state of their own, and what the project and
//! search services compute around their I/O.
use vstd::prelude::*;
use crate::chat::{ChatManager, QueryData, QueryManager};
use crate::imports::views;
use crate::models::{
    Project, has_key, keys, lemma_without_key_unique, lookup, same_but_embeddings, without_key,
};
use crate::template::TemplateService;
use crate::text::{append_chars, append_str, chars_of, join, string_of};
use crate::yaml_processing::remove_key;

verus! {

/// Computes embeddings of texts.
pub struct EmbeddingService {}

impl EmbeddingService {
    pub fn new() -> Self {
        EmbeddingService {}
    }
}

/// Works with a project's Git repository.
pub struct GitService {}

/// What Git reports of one path of the working tree.
pub struct StatusFlags {
    /// The path has no status bit set (it is current).
    pub current: bool,
    /// The path is ignored.
    pub ignored: bool,
    /// The path is new in the working tree (untracked).
    pub wt_new: bool,
}

/// Whether a reported path is an uncommitted change: it has some status, is
/// not ignored and is not merely untracked.
pub open spec fn uncommitted(f: StatusFlags) -> bool {
    !f.current && !f.ignored && !f.wt_new
}

impl GitService {
    pub fn new() -> Self {
        GitService {}
    }

    /// Whether the working tree holds uncommitted changes, judged from the
    /// status of each path Git reports.
    pub fn has_uncommitted_changes(statuses: &Vec<StatusFlags>) -> (r: bool)
        ensures
            r == exists|i: int| 0 <= i < statuses@.len() && uncommitted(#[trigger] statuses@[i]),
    {
        let mut i: usize = 0;
        while i < statuses.len()
            invariant
                i <= statuses.len(),
                forall|j: int| 0 <= j < i ==> !uncommitted(#[trigger] statuses@[j]),
            decreases statuses.len() - i,
        {
            let f = &statuses[i];
            if !f.current && !f.ignored && !f.wt_new {
                assert(uncommitted(statuses@[i as int]));
                return true;
            }
            i += 1;
        }
        false
    }
}

// ------------------------------------------------------------------------
// Search
// ------------------------------------------------------------------------
/// A file found by a vector search, with what is known of it.
pub struct SearchMatch {
    pub file_path: String,
    /// The file's source, empty when it could not be read.
    pub file_content: String,
    /// The file's description in the project, if it has one.
    pub file_description: Option<String>,
}

/// `path: description` for each described file, one per line.
pub open spec fn descriptions_text(fd: Seq<(String, String)>) -> Seq<char> {
    join(fd.map_values(|d: (String, String)| d.0@ + ": "@ + d.1@), "\n"@)
}

/// Each found file as `// File: <path>`, its description (or nothing) and
/// its source, on their own lines, followed by an empty line.
pub open spec fn found_code_text(ms: Seq<SearchMatch>) -> Seq<char>
    decreases ms.len(),
{
    if ms.len() == 0 {
        seq![]
    } else {
        let m = ms.last();
        found_code_text(ms.drop_last()) + "// File: "@ + m.file_path@ + "\n"@ + match m.file_description {
            Some(d) => d@,
            None => seq![],
        } + "\n"@ + m.file_content@ + "\n\n"@
    }
}

/// The request for the model's analysis of a search: the query, the
/// project's file descriptions, the code found, and the JSON answer asked for.
pub open spec fn search_analysis_prompt_text(query: Seq<char>, fd: Seq<(String, String)>, found: Seq<SearchMatch>) -> Seq<char> {
    "User Query: \""@ + query + "\"\n\nFile Descriptions:\n```\n"@ + descriptions_text(fd) + "\n```\n\nRelated code from vector search:\n```\n"@ + found_code_text(found) + "\n```\n\nBased on the user query and the provided code, please provide a JSON code block with the following structure:\n```json\n{\n  \"accurate_vector_results\": \"explanation\",\n  \"suggested_files\": [\"file1.rs\", \"file2.rs\", ...],\n  \"bm25_keywords\": \"space separated keywords for broader search\"\n}\n```\n- `accurate_vector_results`: A string explaining whether the vector results seem relevant to the query and why.\n- `suggested_files`: A list of file paths (relative to the project root) that would be needed to fully answer this query. These files should be chosen from the File Descriptions section.\n- `bm25_keywords`: A space-separated string of keywords that represent a broader set of terms that might be relevant for finding additional files via a keyword-based search (BM25F) over YAML summaries."@
}

/// Runs vector searches over a project's embeddings.
pub struct SearchService;

impl SearchService {
    pub fn new() -> Self {
        Self {}
    }

    /// The files a vector search found, each with its source (`contents[i]`,
    /// what reading the `i`-th file gave; empty when it could not be read)
    /// and its description in the project.
    pub fn search_matches(&self, project: &Project, found_paths: &Vec<String>, contents: &Vec<Option<String>>) -> (r: Vec<SearchMatch>)
        requires
            contents@.len() == found_paths@.len(),
        ensures
            r@.len() == found_paths@.len(),
            forall|i: int| 0 <= i < r@.len() ==> {
                &&& (#[trigger] r@[i]).file_path@ == found_paths@[i]@
                &&& r@[i].file_content@ == match contents@[i] {
                    Some(c) => c@,
                    None => seq![],
                }
                &&& r@[i].file_description == lookup(project.file_descriptions@, found_paths@[i]@)
            },
    {
        let mut r: Vec<SearchMatch> = Vec::new();
        let mut i: usize = 0;
        while i < found_paths.len()
            invariant
                i <= found_paths.len(),
                contents@.len() == found_paths@.len(),
                r@.len() == i,
                forall|k: int| 0 <= k < i ==> {
                    &&& (#[trigger] r@[k]).file_path@ == found_paths@[k]@
                    &&& r@[k].file_content@ == match contents@[k] {
                        Some(c) => c@,
                        None => seq![],
                    }
                    &&& r@[k].file_description == lookup(project.file_descriptions@, found_paths@[k]@)
                },
            decreases found_paths.len() - i,
        {
            let content = match &contents[i] {
                Some(c) => c.clone(),
                None => String::new(),
            };
            let description = match crate::models::position_of(&project.file_descriptions, &found_paths[i]) {
                Some(k) => Some(project.file_descriptions[k].1.clone()),
                None => None,
            };
            r.push(SearchMatch { file_path: found_paths[i].clone(), file_content: content, file_description: description });
            i += 1;
        }
        r
    }

    /// The request for the model's analysis of a search.
    pub fn search_analysis_prompt(&self, query_text: &str, project: &Project, found: &Vec<SearchMatch>) -> (r: String)
        ensures
            r@ == search_analysis_prompt_text(query_text@, project.file_descriptions@, found@),
    {
        let fd = &project.file_descriptions;
        let mut parts: Vec<Vec<char>> = Vec::new();
        let mut i: usize = 0;
        while i < fd.len()
            invariant
                i <= fd.len(),
                parts@.map_values(|v: Vec<char>| v@) == fd@.take(i as int).map_values(|d: (String, String)| d.0@ + ": "@ + d.1@),
            decreases fd.len() - i,
        {
            let mut line = chars_of(fd[i].0.as_str());
            append_str(&mut line, ": ");
            append_str(&mut line, fd[i].1.as_str());
            let ghost before = parts@;
            parts.push(line);
            assert(parts@.map_values(|v: Vec<char>| v@) =~= before.map_values(|v: Vec<char>| v@).push(fd@[i as int].0@ + ": "@ + fd@[i as int].1@));
            assert(fd@.take(i + 1).map_values(|d: (String, String)| d.0@ + ": "@ + d.1@) =~= fd@.take(i as int).map_values(|d: (String, String)| d.0@ + ": "@ + d.1@).push(fd@[i as int].0@ + ": "@ + fd@[i as int].1@));
            i += 1;
        }
        assert(fd@.take(fd.len() as int) =~= fd@);
        let descs = crate::text::join_exec(&parts, &chars_of("\n"));
        let mut code: Vec<char> = Vec::new();
        let mut j: usize = 0;
        while j < found.len()
            invariant
                j <= found.len(),
                code@ == found_code_text(found@.take(j as int)),
            decreases found.len() - j,
        {
            assert(found@.take(j + 1).drop_last() =~= found@.take(j as int));
            assert(found@.take(j + 1).last() == found@[j as int]);
            append_str(&mut code, "// File: ");
            append_str(&mut code, found[j].file_path.as_str());
            append_str(&mut code, "\n");
            match &found[j].file_description {
                Some(d) => append_str(&mut code, d.as_str()),
                None => {},
            }
            append_str(&mut code, "\n");
            append_str(&mut code, found[j].file_content.as_str());
            append_str(&mut code, "\n\n");
            j += 1;
        }
        assert(found@.take(found.len() as int) =~= found@);
        let mut p = chars_of("User Query: \"");
        append_str(&mut p, query_text);
        append_str(&mut p, "\"\n\nFile Descriptions:\n```\n");
        append_chars(&mut p, &descs);
        append_str(&mut p, "\n```\n\nRelated code from vector search:\n```\n");
        append_chars(&mut p, &code);
        append_str(&mut p, "\n```\n\nBased on the user query and the provided code, please provide a JSON code block with the following structure:\n```json\n{\n  \"accurate_vector_results\": \"explanation\",\n  \"suggested_files\": [\"file1.rs\", \"file2.rs\", ...],\n  \"bm25_keywords\": \"space separated keywords for broader search\"\n}\n```\n- `accurate_vector_results`: A string explaining whether the vector results seem relevant to the query and why.\n- `suggested_files`: A list of file paths (relative to the project root) that would be needed to fully answer this query. These files should be chosen from the File Descriptions section.\n- `bm25_keywords`: A space-separated string of keywords that represent a broader set of terms that might be relevant for finding additional files via a keyword-based search (BM25F) over YAML summaries.");
        string_of(&p)
    }
}

// ------------------------------------------------------------------------
// Projects
// ------------------------------------------------------------------------
/// The keys of the first `n` pairs whose flag in `gone` is set.
pub open spec fn flagged_keys<V>(entries: Seq<(String, V)>, gone: Seq<bool>, n: int) -> Seq<Seq<char>>
    decreases n,
{
    if n <= 0 {
        seq![]
    } else {
        flagged_keys(entries, gone, n - 1) + if gone[n - 1] { seq![entries[n - 1].0@] } else { seq![] }
    }
}

/// `entries` without every pair whose key is one of `ks`.
pub open spec fn without_keys<V>(entries: Seq<(String, V)>, ks: Seq<Seq<char>>) -> Seq<(String, V)>
    decreases ks.len(),
{
    if ks.len() == 0 {
        entries
    } else {
        without_key(without_keys(entries, ks.drop_last()), ks.last())
    }
}

/// Loads and saves projects, and holds their query and chat managers.
pub struct ProjectService {
    pub query_manager: QueryManager,
    pub chat_manager: ChatManager,
}

impl ProjectService {
    pub fn new() -> Self {
        Self { query_manager: QueryManager::new(), chat_manager: ChatManager::new() }
    }

    /// Drops the embedding records of files that are gone or ignored:
    /// `gone[i]` tells whether the file of the `i`-th record is missing or
    /// ignored. Gives their paths, in order.
    pub fn drop_orphaned_embeddings(&self, project: &mut Project, gone: &Vec<bool>) -> (r: Vec<String>)
        requires
            gone@.len() == old(project).embeddings@.len(),
            old(project).wf(),
        ensures
            views(r@) == flagged_keys(old(project).embeddings@, gone@, gone@.len() as int),
            final(project).embeddings@ == without_keys(old(project).embeddings@, views(r@)),
            same_but_embeddings(*final(project), *old(project)),
            final(project).wf(),
    {
        let mut removed: Vec<String> = Vec::new();
        let mut i: usize = 0;
        while i < gone.len()
            invariant
                i <= gone.len(),
                gone@.len() == project.embeddings@.len(),
                project.embeddings@ == old(project).embeddings@,
                views(removed@) == flagged_keys(old(project).embeddings@, gone@, i as int),
            decreases gone.len() - i,
        {
            if gone[i] {
                let ghost before = removed@;
                removed.push(project.embeddings[i].0.clone());
                assert(views(removed@) =~= views(before).push(project.embeddings@[i as int].0@));
            } else {
                assert(views(removed@) =~= flagged_keys(old(project).embeddings@, gone@, i + 1));
            }
            i += 1;
        }
        let ghost e0 = project.embeddings@;
        let mut j: usize = 0;
        while j < removed.len()
            invariant
                j <= removed.len(),
                project.embeddings@ == without_keys(e0, views(removed@).take(j as int)),
                same_but_embeddings(*project, *old(project)),
                project.wf(),
            decreases removed.len() - j,
        {
            assert(views(removed@).take(j + 1).drop_last() =~= views(removed@).take(j as int));
            let ghost before = project.embeddings@;
            remove_key(&mut project.embeddings, &removed[j]);
            proof {
                lemma_without_key_unique(before, removed@[j as int]@);
            }
            j += 1;
        }
        assert(views(removed@).take(removed.len() as int) =~= views(removed@));
        removed
    }

    /// The summaries part of the project page: the file graph, a heading,
    /// the summaries' HTML.
    pub fn yaml_files_html(&self, project_name: &str, yaml_html: &str, file_descriptions: &Vec<(String, String)>) -> (r: String)
        ensures
            r@ == crate::template::file_graph(project_name@, file_descriptions@)
                + "<h2 style='text-align: center;'>YAML Representations</h2>"@ + yaml_html@,
    {
        let t = TemplateService::new();
        let g = t.generate_file_graph_html(project_name, file_descriptions);
        let mut p = chars_of(g.as_str());
        append_str(&mut p, "<h2 style='text-align: center;'>YAML Representations</h2>");
        append_str(&mut p, yaml_html);
        string_of(&p)
    }
}

// ------------------------------------------------------------------------
// Requests
// ------------------------------------------------------------------------
/// The request to split a large file: the project's file descriptions, the
/// file's path, what the plan should cover, and the file's content.
pub open spec fn split_prompt_text(fd: Seq<(String, String)>, file_path: Seq<char>, file_content: Seq<char>) -> Seq<char> {
    descriptions_text(fd) + "\nAbove is the descriptions for the files in this project. I need to split a large file into smaller, more manageable pieces. Please suggest how to split this file into multiple smaller files.\n\nFile path: "@ + file_path + "\n\nPlease provide a detailed plan for splitting this file, including:\n1. The new files that should be created\n2. What content should go in each file\n3. How the files should reference each other\n4. Any refactoring needed to maintain functionality\nBe specific and provide actual code examples when appropriate.\n\nFile content:\n```\n"@ + file_content + "\n```\n\n"@
}

fn descriptions_exec(fd: &Vec<(String, String)>) -> (r: Vec<char>)
    ensures
        r@ == descriptions_text(fd@),
{
    let mut parts: Vec<Vec<char>> = Vec::new();
    let mut i: usize = 0;
    while i < fd.len()
        invariant
            i <= fd.len(),
            parts@.map_values(|v: Vec<char>| v@) == fd@.take(i as int).map_values(|d: (String, String)| d.0@ + ": "@ + d.1@),
        decreases fd.len() - i,
    {
        let mut line = chars_of(fd[i].0.as_str());
        append_str(&mut line, ": ");
        append_str(&mut line, fd[i].1.as_str());
        let ghost before = parts@;
        parts.push(line);
        assert(parts@.map_values(|v: Vec<char>| v@) =~= before.map_values(|v: Vec<char>| v@).push(fd@[i as int].0@ + ": "@ + fd@[i as int].1@));
        assert(fd@.take(i + 1).map_values(|d: (String, String)| d.0@ + ": "@ + d.1@) =~= fd@.take(i as int).map_values(|d: (String, String)| d.0@ + ": "@ + d.1@).push(fd@[i as int].0@ + ": "@ + fd@[i as int].1@));
        i += 1;
    }
    assert(fd@.take(fd.len() as int) =~= fd@);
    crate::text::join_exec(&parts, &chars_of("\n"))
}

/// The request to split a large file into smaller ones.
pub fn split_suggestion_prompt(project: &Project, file_path: &str, file_content: &str) -> (r: String)
    ensures
        r@ == split_prompt_text(project.file_descriptions@, file_path@, file_content@),
{
    let mut p = descriptions_exec(&project.file_descriptions);
    append_str(&mut p, "\nAbove is the descriptions for the files in this project. I need to split a large file into smaller, more manageable pieces. Please suggest how to split this file into multiple smaller files.\n\nFile path: ");
    append_str(&mut p, file_path);
    append_str(&mut p, "\n\nPlease provide a detailed plan for splitting this file, including:\n1. The new files that should be created\n2. What content should go in each file\n3. How the files should reference each other\n4. Any refactoring needed to maintain functionality\nBe specific and provide actual code examples when appropriate.\n\nFile content:\n```\n");
    append_str(&mut p, file_content);
    append_str(&mut p, "\n```\n\n");
    string_of(&p)
}

/// A request to turn automatic commits on or off for a query.
pub struct UpdateAutoCommitRequest {
    pub project_name: String,
    pub query_id: String,
    pub auto_commit: bool,
}

impl UpdateAutoCommitRequest {
    /// Sets the query's automatic-commit flag as requested.
    pub fn apply(&self, query_data: &mut QueryData)
        ensures
            final(query_data).auto_commit == self.auto_commit,
            final(query_data).query == old(query_data).query,
            final(query_data).title == old(query_data).title,
            final(query_data).vector_results == old(query_data).vector_results,
            final(query_data).context_files == old(query_data).context_files,
            final(query_data).llm_analysis == old(query_data).llm_analysis,
            final(query_data).chat_nodes == old(query_data).chat_nodes,
            final(query_data).current_node_id == old(query_data).current_node_id,
            final(query_data).analysis_chat_history == old(query_data).analysis_chat_history,
    {
        query_data.auto_commit = self.auto_commit;
    }
}

} // verus!
