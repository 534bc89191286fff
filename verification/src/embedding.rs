//! When a file's embedding must be computed again, and what is recorded once
//! it is stored.
//!
//! Reading the summary directory, asking Git for blob hashes, reading
//! modification times and talking to the embedding model and the vector
//! store are left to the caller; the decisions taken on what they report are
//! here.
use vstd::prelude::*;
use crate::models::{
    EmbeddingMetadata, Project, has_key, keys, lemma_upsert_unique, lookup, same_but_embeddings, upsert,
};
use crate::text::{chars_of, eq_str, replace, replace_str, string_of};

verus! {

/// What was observed of a source file and its summary file.
pub struct ChangeFacts {
    /// The file's Git blob hash, when Git tracking is active and the hash
    /// could be read.
    pub git_blob_hash: Option<String>,
    /// When the source file was last modified (nanoseconds since the Unix
    /// epoch), if that could be read.
    pub source_modified: Option<i128>,
    /// When the summary file was last modified, if that could be read.
    pub yaml_modified: Option<i128>,
}

/// Whether the summary (rather than the source) is what gets embedded for
/// `path`: the file's own setting, else the project default.
pub open spec fn uses_yaml(project: Project, path: Seq<char>) -> bool {
    match lookup(project.file_yaml_override@, path) {
        Some(b) => b,
        None => project.default_use_yaml,
    }
}

/// Whether the file's Git content differs from what was embedded: no record,
/// no recorded hash, or a different hash.
pub open spec fn git_says_changed(emb: Seq<(String, EmbeddingMetadata)>, path: Seq<char>, hash: Seq<char>) -> bool {
    match lookup(emb, path) {
        Some(m) => match m.git_blob_hash {
            Some(h) => h@ != hash,
            None => true,
        },
        None => true,
    }
}

/// Whether the timestamps say the embedding is stale: a time that could not
/// be read, no record, or the embedded file (summary or source) modified
/// after the record.
pub open spec fn timestamps_say_changed(
    emb: Seq<(String, EmbeddingMetadata)>,
    path: Seq<char>,
    use_yaml: bool,
    source_modified: Option<i128>,
    yaml_modified: Option<i128>,
) -> bool {
    match (source_modified, yaml_modified) {
        (Some(s), Some(y)) => match lookup(emb, path) {
            Some(m) => (if use_yaml { y } else { s }) > m.last_updated,
            None => true,
        },
        _ => true,
    }
}

/// Whether the embedding of `path` must be computed again: by Git hash when
/// one was read, else by timestamps.
pub open spec fn embedding_stale(project: Project, path: Seq<char>, use_yaml: bool, facts: ChangeFacts) -> bool {
    match facts.git_blob_hash {
        Some(h) => git_says_changed(project.embeddings@, path, h@),
        None => timestamps_say_changed(project.embeddings@, path, use_yaml, facts.source_modified, facts.yaml_modified),
    }
}

/// The source path that a summary file of the summary directory stands for:
/// `*` turned back into `/` and `.yml` dropped; `None` for the settings file
/// and for a name that leaves nothing.
pub open spec fn embedded_source_of(file_name: Seq<char>) -> Option<Seq<char>> {
    let p = replace(replace(file_name, "*"@, "/"@), ".yml"@, ""@);
    if p.len() == 0 || file_name == "project_settings.json"@ {
        None
    } else {
        Some(p)
    }
}

/// The source path that a summary file stands for, unless the file is to be
/// skipped.
pub fn embedding_source_path(file_name: &str) -> (r: Option<String>)
    ensures
        r matches Some(s) ==> embedded_source_of(file_name@) == Some(s@),
        r is None ==> embedded_source_of(file_name@) is None,
{
    let f = chars_of(file_name);
    let a = replace_str(&f, "*", "/");
    let p = replace_str(&a, ".yml", "");
    if p.len() == 0 || eq_str(&f, "project_settings.json") {
        None
    } else {
        Some(string_of(&p))
    }
}

/// Whether the summary is what gets embedded for `path`.
pub fn use_yaml_for(project: &Project, path: &String) -> (r: bool)
    ensures
        r == uses_yaml(*project, path@),
{
    match crate::models::position_of(&project.file_yaml_override, path) {
        Some(i) => project.file_yaml_override[i].1,
        None => project.default_use_yaml,
    }
}

/// Whether the embedding of `path` must be computed again.
pub fn embedding_update_needed(project: &Project, path: &String, use_yaml: bool, facts: &ChangeFacts) -> (r: bool)
    ensures
        r == embedding_stale(*project, path@, use_yaml, *facts),
{
    match &facts.git_blob_hash {
        Some(h) => match crate::models::position_of(&project.embeddings, path) {
            Some(i) => match &project.embeddings[i].1.git_blob_hash {
                Some(stored) => !stored.eq(h),
                None => true,
            },
            None => true,
        },
        None => match (facts.source_modified, facts.yaml_modified) {
            (Some(s), Some(y)) => match crate::models::position_of(&project.embeddings, path) {
                Some(i) => {
                    let t = if use_yaml { y } else { s };
                    t > project.embeddings[i].1.last_updated
                },
                None => true,
            },
            _ => true,
        },
    }
}

/// What to do for one entry of the summary directory.
pub struct EmbeddingRefresh {
    /// The source file the summary stands for.
    pub source_path: String,
    /// Whether the summary (not the source) is to be embedded.
    pub use_yaml: bool,
    /// The Git blob hash to record with the new embedding.
    pub git_blob_hash: Option<String>,
}

/// Decides, for the summary file `file_name` and what was observed of it,
/// whether its embedding must be computed again, which text to embed, and
/// which hash to record; `None` when nothing is to be done.
pub fn plan_embedding_refresh(project: &Project, file_name: &str, facts: ChangeFacts) -> (r: Option<EmbeddingRefresh>)
    ensures
        match embedded_source_of(file_name@) {
            None => r is None,
            Some(p) => {
                let u = uses_yaml(*project, p);
                match r {
                    None => !embedding_stale(*project, p, u, facts),
                    Some(plan) => embedding_stale(*project, p, u, facts) && plan.source_path@ == p
                        && plan.use_yaml == u && plan.git_blob_hash == facts.git_blob_hash,
                }
            },
        },
{
    match embedding_source_path(file_name) {
        None => None,
        Some(p) => {
            let u = use_yaml_for(project, &p);
            if embedding_update_needed(project, &p, u, &facts) {
                Some(EmbeddingRefresh { source_path: p, use_yaml: u, git_blob_hash: facts.git_blob_hash })
            } else {
                None
            }
        },
    }
}

/// Records that the embedding of `source_path` was stored under `vector_id`
/// at `now`, with the Git blob hash it was computed for.
pub fn record_embedding(project: &mut Project, source_path: String, vector_id: String, now: i128, git_blob_hash: Option<String>)
    requires
        old(project).wf(),
    ensures
        lookup(final(project).embeddings@, source_path@) == Some(EmbeddingMetadata {
            file_path: source_path,
            last_updated: now,
            vector_id,
            git_blob_hash,
        }),
        forall|k: Seq<char>| k != source_path@ ==> #[trigger] lookup(final(project).embeddings@, k) == lookup(old(project).embeddings@, k),
        keys(final(project).embeddings@) == if has_key(old(project).embeddings@, source_path@) {
            keys(old(project).embeddings@)
        } else {
            keys(old(project).embeddings@).push(source_path@)
        },
        same_but_embeddings(*final(project), *old(project)),
        final(project).wf(),
{
    let key = source_path.clone();
    let meta = EmbeddingMetadata { file_path: source_path, last_updated: now, vector_id, git_blob_hash };
    let ghost e0 = project.embeddings@;
    let ghost k = key@;
    upsert(&mut project.embeddings, key, meta);
    proof {
        lemma_upsert_unique(e0, project.embeddings@, k);
    }
}

/// The source path a summary file stands for when looking for summaries
/// edited by hand: `None` for the settings file and a name that leaves nothing.
pub open spec fn edited_source_of(file_name: Seq<char>) -> Option<Seq<char>> {
    let p = replace(replace(file_name, "*"@, "/"@), ".yml"@, ""@);
    if p.len() == 0 || p == "project_settings"@ {
        None
    } else {
        Some(p)
    }
}

/// Whether a summary was edited after its embedding was recorded: always
/// when there is no record; otherwise when its modification time (if it
/// could be read) is later than the record.
pub open spec fn summary_edited(emb: Seq<(String, EmbeddingMetadata)>, path: Seq<char>, yaml_modified: Option<i128>) -> bool {
    match lookup(emb, path) {
        None => true,
        Some(m) => match yaml_modified {
            Some(t) => t > m.last_updated,
            None => false,
        },
    }
}

/// The source path a summary file stands for, unless it is to be skipped.
pub fn edited_summary_source(file_name: &str) -> (r: Option<String>)
    ensures
        r matches Some(s) ==> edited_source_of(file_name@) == Some(s@),
        r is None ==> edited_source_of(file_name@) is None,
{
    let f = chars_of(file_name);
    let a = replace_str(&f, "*", "/");
    let p = replace_str(&a, ".yml", "");
    if p.len() == 0 || eq_str(&p, "project_settings") {
        None
    } else {
        Some(string_of(&p))
    }
}

/// Whether a summary was edited after its embedding was recorded.
pub fn summary_edited_since_embedding(project: &Project, path: &String, yaml_modified: Option<i128>) -> (r: bool)
    ensures
        r == summary_edited(project.embeddings@, path@, yaml_modified),
{
    match crate::models::position_of(&project.embeddings, path) {
        None => true,
        Some(i) => match yaml_modified {
            Some(t) => t > project.embeddings[i].1.last_updated,
            None => false,
        },
    }
}

} // verus!
