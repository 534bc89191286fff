//! Project-relative paths.
use vstd::prelude::*;
use crate::models::{Project, keys};
use crate::text::{
    chars_of, ends_with, find, find_exec, has_prefix, has_suffix, lemma_find_from_bounds, replace,
    replace_str, slice, starts_with, string_of,
};

verus! {

/// `base` joined with `rel` as `Path::join` does on Unix: an absolute `rel`
/// replaces `base`; otherwise a `/` is put between them unless `base` is
/// empty or already ends with one.
pub open spec fn path_join(base: Seq<char>, rel: Seq<char>) -> Seq<char> {
    if rel.len() > 0 && rel[0] == '/' {
        rel
    } else if base.len() == 0 || base.last() == '/' {
        base + rel
    } else {
        base + seq!['/'] + rel
    }
}

/// `Path::new(base).join(rel)`, as a string.
#[verifier::external_body]
pub(crate) fn join_path(base: &str, rel: &str) -> (r: String)
    ensures
        r@ == path_join(base@, rel@),
{
    std::path::Path::new(base).join(rel).to_string_lossy().to_string()
}

/// The final component of a path (`Path::file_name`), as a string.
pub uninterp spec fn path_file_name(p: Seq<char>) -> Option<Seq<char>>;

/// `Path::new(p).file_name()`, as a string: `None` when the path ends in `..`
/// or has no components.
#[verifier::external_body]
pub(crate) fn file_name_of(p: &str) -> (r: Option<String>)
    ensures
        r matches Some(s) ==> path_file_name(p@) == Some(s@),
        r is None ==> path_file_name(p@) is None,
{
    std::path::Path::new(p).file_name().map(|n| n.to_string_lossy().to_string())
}

/// Whether `c` names a file that the project knows (it has a description or an embedding).
pub open spec fn known_path(fd: Seq<(String, String)>, emb_keys: Seq<Seq<char>>, c: Seq<char>) -> bool {
    keys(fd).contains(c) || emb_keys.contains(c)
}

/// The first of `ks` that ends with `raw`.
pub open spec fn first_with_suffix(ks: Seq<Seq<char>>, raw: Seq<char>) -> Option<Seq<char>>
    decreases ks.len(),
{
    if ks.len() == 0 {
        None
    } else if ends_with(ks[0], raw) {
        Some(ks[0])
    } else {
        first_with_suffix(ks.drop_first(), raw)
    }
}

/// The project path that a raw path names, tried in order: the path itself
/// (backslashes made slashes); without a leading `/`; under the source
/// directory; the part after `src/` under the source directory; the first
/// known path that ends with it.
pub open spec fn normalized_path(
    raw_path: Seq<char>,
    fd: Seq<(String, String)>,
    emb_keys: Seq<Seq<char>>,
    source_dir: Seq<char>,
) -> Option<Seq<char>> {
    let raw = replace(raw_path, "\\"@, "/"@);
    if known_path(fd, emb_keys, raw) {
        Some(raw)
    } else if raw.len() > 0 && raw[0] == '/' && known_path(fd, emb_keys, raw.drop_first()) {
        Some(raw.drop_first())
    } else if !starts_with(raw, source_dir) && known_path(fd, emb_keys, path_join(source_dir, raw)) {
        Some(path_join(source_dir, raw))
    } else if find(raw, "src/"@) is Some && known_path(
        fd,
        emb_keys,
        path_join(source_dir, raw.skip(find(raw, "src/"@)->0 + 4)),
    ) {
        Some(path_join(source_dir, raw.skip(find(raw, "src/"@)->0 + 4)))
    } else {
        match first_with_suffix(keys(fd), raw) {
            Some(k) => Some(k),
            None => first_with_suffix(emb_keys, raw),
        }
    }
}

proof fn lemma_first_with_suffix_member(ks: Seq<Seq<char>>, raw: Seq<char>)
    ensures
        first_with_suffix(ks, raw) matches Some(k) ==> ks.contains(k),
    decreases ks.len(),
{
    if ks.len() > 0 && !ends_with(ks[0], raw) {
        lemma_first_with_suffix_member(ks.drop_first(), raw);
        if first_with_suffix(ks, raw) is Some {
            let k = first_with_suffix(ks, raw)->0;
            let i = choose|i: int| 0 <= i < ks.drop_first().len() && ks.drop_first()[i] == k;
            assert(ks[i + 1] == k);
        }
    } else if ks.len() > 0 {
        assert(ks[0] == ks[0]);
    }
}

/// A normalized path always names a file that the project knows: one with a
/// description or an embedding.
pub proof fn law_normalized_path_is_known(
    raw_path: Seq<char>,
    fd: Seq<(String, String)>,
    emb_keys: Seq<Seq<char>>,
    source_dir: Seq<char>,
)
    ensures
        normalized_path(raw_path, fd, emb_keys, source_dir) matches Some(p) ==> known_path(
            fd,
            emb_keys,
            p,
        ),
{
    lemma_first_with_suffix_member(keys(fd), replace(raw_path, "\\"@, "/"@));
    lemma_first_with_suffix_member(emb_keys, replace(raw_path, "\\"@, "/"@));
}

fn key_known<V>(entries: &Vec<(String, V)>, c: &Vec<char>) -> (r: bool)
    ensures
        r == keys(entries@).contains(c@),
{
    let mut i: usize = 0;
    while i < entries.len()
        invariant
            i <= entries.len(),
            forall|j: int| 0 <= j < i ==> entries@[j].0@ != c@,
        decreases entries.len() - i,
    {
        let k = chars_of(entries[i].0.as_str());
        if crate::text::chars_eq(&k, c) {
            assert(keys(entries@)[i as int] == c@);
            return true;
        }
        i += 1;
    }
    assert(!keys(entries@).contains(c@)) by {
        if keys(entries@).contains(c@) {
            let j = choose|j: int| 0 <= j < keys(entries@).len() && keys(entries@)[j] == c@;
            assert(entries@[j].0@ == c@);
        }
    }
    false
}

fn known_exec(project: &Project, c: &Vec<char>) -> (r: bool)
    ensures
        r == known_path(project.file_descriptions@, keys(project.embeddings@), c@),
{
    key_known(&project.file_descriptions, c) || key_known(&project.embeddings, c)
}

fn first_with_suffix_exec<V>(entries: &Vec<(String, V)>, raw: &Vec<char>) -> (r: Option<String>)
    ensures
        r matches Some(s) ==> first_with_suffix(keys(entries@), raw@) == Some(s@),
        r is None ==> first_with_suffix(keys(entries@), raw@) is None,
{
    let ghost ks = keys(entries@);
    let mut i: usize = 0;
    assert(ks.skip(0) =~= ks);
    while i < entries.len()
        invariant
            i <= entries.len(),
            ks == keys(entries@),
            first_with_suffix(ks, raw@) == first_with_suffix(ks.skip(i as int), raw@),
        decreases entries.len() - i,
    {
        assert(ks.skip(i as int)[0] == entries@[i as int].0@);
        assert(ks.skip(i as int).drop_first() =~= ks.skip(i + 1));
        let k = chars_of(entries[i].0.as_str());
        if has_suffix(&k, raw) {
            return Some(entries[i].0.clone());
        }
        i += 1;
    }
    None
}

/// Turns raw file paths (as models and YAML files write them) into paths that
/// the project knows.
pub struct PathUtils;

impl PathUtils {
    /// The project path that `raw_path` names, preferring paths that the
    /// project's descriptions and embeddings already hold; `None` when none fits.
    pub fn normalize_project_path(raw_path: &str, project: &Project) -> (r: Option<String>)
        ensures
            r matches Some(s) ==> normalized_path(
                raw_path@,
                project.file_descriptions@,
                keys(project.embeddings@),
                project.source_dir@,
            ) == Some(s@),
            r is None ==> normalized_path(
                raw_path@,
                project.file_descriptions@,
                keys(project.embeddings@),
                project.source_dir@,
            ) is None,
    {
        let rp = chars_of(raw_path);
        let raw = replace_str(&rp, "\\", "/");
        if known_exec(project, &raw) {
            return Some(string_of(&raw));
        }
        if raw.len() > 0 && raw[0] == '/' {
            let stripped = slice(&raw, 1, raw.len());
            assert(stripped@ =~= raw@.drop_first());
            if known_exec(project, &stripped) {
                return Some(string_of(&stripped));
            }
        }
        let sd = chars_of(project.source_dir.as_str());
        if !has_prefix(&raw, &sd) {
            let raw_s = string_of(&raw);
            let cand = join_path(project.source_dir.as_str(), raw_s.as_str());
            let cv = chars_of(cand.as_str());
            if known_exec(project, &cv) {
                return Some(cand);
            }
        }
        let src = chars_of("src/");
        match find_exec(&raw, &src) {
            Some(i) => {
                proof {
                    lemma_find_from_bounds(raw@, "src/"@, 0);
                    reveal_strlit("src/");
                }
                let after = slice(&raw, i + 4, raw.len());
                assert(after@ =~= raw@.skip(i + 4));
                let after_s = string_of(&after);
                let cand = join_path(project.source_dir.as_str(), after_s.as_str());
                let cv = chars_of(cand.as_str());
                if known_exec(project, &cv) {
                    return Some(cand);
                }
            },
            None => {},
        }
        match first_with_suffix_exec(&project.file_descriptions, &raw) {
            Some(k) => Some(k),
            None => first_with_suffix_exec(&project.embeddings, &raw),
        }
    }
}

/// The source file that a summary file stands for: its file name with `*`
/// turned back into `/` and `.yml` dropped, under `source_dir`.
pub open spec fn source_path_spec(source_dir: Seq<char>, yaml_file_name: Seq<char>) -> Seq<char> {
    path_join(source_dir, replace(replace(yaml_file_name, "*"@, "/"@), ".yml"@, ""@))
}

/// The source file that the summary at `yaml_path` stands for.
pub fn construct_source_path(source_dir: &str, yaml_path: &str) -> (r: String)
    requires
        path_file_name(yaml_path@) is Some,
    ensures
        r@ == source_path_spec(source_dir@, path_file_name(yaml_path@)->0),
{
    let name = file_name_of(yaml_path);
    match name {
        Some(n) => {
            let nv = chars_of(n.as_str());
            let a = replace_str(&nv, "*", "/");
            let b = replace_str(&a, ".yml", "");
            let rel = string_of(&b);
            join_path(source_dir, rel.as_str())
        },
        None => String::new(),
    }
}

/// The source file that the summary at `yaml_path` stands for, or `None` when
/// the path has no file name.
pub fn source_path_for_summary(source_dir: &str, yaml_path: &str) -> (r: Option<String>)
    ensures
        r matches Some(s) ==> path_file_name(yaml_path@) matches Some(n) && s@ == source_path_spec(source_dir@, n),
        r is None ==> path_file_name(yaml_path@) is None,
{
    match file_name_of(yaml_path) {
        None => None,
        Some(_) => Some(construct_source_path(source_dir, yaml_path)),
    }
}

} // verus!
