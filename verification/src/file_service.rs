//! Source files of a project: which are taken, which carry a valid path
//! comment, where their summaries live and when those are out of date.
//!
//! Reading directories and files is left to the caller, which hands in what
//! it read; the rules applied to it are here.
use vstd::prelude::*;
use crate::embedding::{ChangeFacts, git_says_changed};
use crate::imports::{extract_imports, extracted_imports, views};
use crate::models::Project;
use crate::paths::{file_name_of, join_path, path_file_name, path_join};
use crate::text::{
    append_chars, append_str, chars_of, lines, lines_exec, replace, replace_str, split, split_exec,
    string_of, trim_start_matches, trim_start_matches_exec, words, words_exec,
};
use crate::yaml_processing::{matches_any, matches_any_pattern};

verus! {

/// Why a file could not be written.
pub enum FileServiceError {
    /// The target lies outside the project's source directory.
    TraversalAttempt,
    /// The target has no parent directory.
    InvalidPath,
    /// The file system refused, with this message.
    Io(String),
}

impl FileServiceError {
    /// The text shown for the error.
    pub open spec fn message_spec(&self) -> Seq<char> {
        match self {
            FileServiceError::TraversalAttempt => "Attempted directory traversal"@,
            FileServiceError::InvalidPath => "Invalid file path"@,
            FileServiceError::Io(e) => "IO error: "@ + e@,
        }
    }

    /// The text shown for the error.
    pub fn message(&self) -> (r: String)
        ensures
            r@ == self.message_spec(),
    {
        match self {
            FileServiceError::TraversalAttempt => string_of(&chars_of("Attempted directory traversal")),
            FileServiceError::InvalidPath => string_of(&chars_of("Invalid file path")),
            FileServiceError::Io(e) => {
                let mut m = chars_of("IO error: ");
                append_str(&mut m, e.as_str());
                string_of(&m)
            },
        }
    }
}

// ------------------------------------------------------------------------
// Extensions
// ------------------------------------------------------------------------
/// All words of all pieces, in order.
pub open spec fn words_of_pieces(pieces: Seq<Seq<char>>) -> Seq<Seq<char>>
    decreases pieces.len(),
{
    if pieces.len() == 0 {
        seq![]
    } else {
        words_of_pieces(pieces.drop_last()) + words(pieces.last())
    }
}

/// The file extensions named by a project's language setting: the
/// comma-separated entries, each split at whitespace.
pub open spec fn extensions_of(languages: Seq<char>) -> Seq<Seq<char>> {
    words_of_pieces(split(languages, ","@))
}

/// The index of the last `.` in `s`.
pub open spec fn last_dot(s: Seq<char>) -> Option<int>
    decreases s.len(),
{
    if s.len() == 0 {
        None
    } else if s.last() == '.' {
        Some(s.len() - 1)
    } else {
        last_dot(s.drop_last())
    }
}

/// The extension of a file name (`Path::extension`): the text after its
/// last `.`, none when there is no `.` or only a leading one.
pub open spec fn name_extension(name: Seq<char>) -> Option<Seq<char>> {
    match last_dot(name) {
        None => None,
        Some(i) => if i == 0 { None } else { Some(name.skip(i + 1)) },
    }
}

/// The extension of a path, empty when it has none.
pub open spec fn extension_or_empty(path: Seq<char>) -> Seq<char> {
    match path_file_name(path) {
        None => seq![],
        Some(n) => match name_extension(n) {
            None => seq![],
            Some(e) => e,
        },
    }
}

/// The file extensions named by a language setting such as `"rs, py"`.
pub fn allowed_extensions(languages: &str) -> (r: Vec<String>)
    ensures
        views(r@) == extensions_of(languages@),
{
    let l = chars_of(languages);
    let comma = chars_of(",");
    proof {
        reveal_strlit(",");
    }
    let pieces = split_exec(&l, &comma);
    let ghost ps = split(languages@, ","@);
    let mut out: Vec<String> = Vec::new();
    let mut i: usize = 0;
    while i < pieces.len()
        invariant
            i <= pieces.len(),
            ps == split(languages@, ","@),
            pieces@.len() == ps.len(),
            forall|k: int| 0 <= k < pieces@.len() ==> #[trigger] pieces@[k]@ == ps[k],
            views(out@) == words_of_pieces(ps.take(i as int)),
        decreases pieces.len() - i,
    {
        assert(ps.take(i + 1).drop_last() =~= ps.take(i as int));
        assert(ps.take(i + 1).last() == pieces@[i as int]@);
        let ws = words_exec(&pieces[i]);
        let ghost before = views(out@);
        let mut j: usize = 0;
        while j < ws.len()
            invariant
                j <= ws.len(),
                ws@.len() == words(pieces@[i as int]@).len(),
                forall|k: int| 0 <= k < ws@.len() ==> #[trigger] ws@[k]@ == words(pieces@[i as int]@)[k],
                views(out@) == before + words(pieces@[i as int]@).take(j as int),
            decreases ws.len() - j,
        {
            let ghost o = out@;
            out.push(string_of(&ws[j]));
            assert(views(out@) =~= views(o).push(ws@[j as int]@));
            assert(words(pieces@[i as int]@).take(j + 1) =~= words(pieces@[i as int]@).take(j as int).push(ws@[j as int]@));
            j += 1;
        }
        assert(words(pieces@[i as int]@).take(ws.len() as int) =~= words(pieces@[i as int]@));
        i += 1;
    }
    assert(ps.take(pieces.len() as int) =~= ps);
    out
}

fn last_dot_exec(s: &Vec<char>) -> (r: Option<usize>)
    ensures
        r matches Some(i) ==> last_dot(s@) == Some(i as int) && i < s.len(),
        r is None ==> last_dot(s@) is None,
{
    let mut n: usize = s.len();
    assert(s@.take(n as int) =~= s@);
    while n > 0
        invariant
            n <= s.len(),
            last_dot(s@) == last_dot(s@.take(n as int)),
        decreases n,
    {
        assert(s@.take(n as int).last() == s@[n - 1]);
        if s[n - 1] == '.' {
            return Some(n - 1);
        }
        assert(s@.take(n as int).drop_last() =~= s@.take(n - 1));
        n -= 1;
    }
    None
}

/// The extension of a path, or the empty string when it has none.
pub fn path_extension(path: &str) -> (r: String)
    ensures
        r@ == extension_or_empty(path@),
{
    match file_name_of(path) {
        None => String::new(),
        Some(n) => {
            let nv = chars_of(n.as_str());
            match last_dot_exec(&nv) {
                None => String::new(),
                Some(i) => {
                    if i == 0 {
                        String::new()
                    } else {
                        let mut e: Vec<char> = Vec::new();
                        let mut k: usize = i + 1;
                        while k < nv.len()
                            invariant
                                i + 1 <= k <= nv.len(),
                                e@ == nv@.subrange(i + 1, k as int),
                            decreases nv.len() - k,
                        {
                            e.push(nv[k]);
                            k += 1;
                        }
                        assert(e@ =~= nv@.skip(i + 1));
                        string_of(&e)
                    }
                },
            }
        },
    }
}

/// Whether a file is taken by extension: its extension (empty when it has
/// none) is one of `extensions`.
pub fn has_allowed_extension(path: &str, extensions: &Vec<String>) -> (r: bool)
    ensures
        r == views(extensions@).contains(extension_or_empty(path@)),
{
    let e = path_extension(path);
    let mut i: usize = 0;
    while i < extensions.len()
        invariant
            i <= extensions.len(),
            e@ == extension_or_empty(path@),
            forall|j: int| 0 <= j < i ==> extensions@[j]@ != e@,
        decreases extensions.len() - i,
    {
        if extensions[i].eq(&e) {
            assert(views(extensions@)[i as int] == e@);
            return true;
        }
        i += 1;
    }
    assert(!views(extensions@).contains(e@)) by {
        if views(extensions@).contains(e@) {
            let j = choose|j: int| 0 <= j < views(extensions@).len() && views(extensions@)[j] == e@;
            assert(extensions@[j]@ == e@);
        }
    }
    false
}

/// Whether the listing of files excluded from search takes a file: its
/// extension is allowed and its path relative to the project root (`None`
/// when it lies outside) matches an exclude pattern.
pub fn listed_as_excluded(
    relative_path: Option<&str>,
    file_path: &str,
    extensions: &Vec<String>,
    exclude_patterns: &Vec<String>,
) -> (r: bool)
    ensures
        r == (views(extensions@).contains(extension_or_empty(file_path@)) && match relative_path {
            Some(rel) => matches_any(rel@, exclude_patterns@),
            None => false,
        }),
{
    if !has_allowed_extension(file_path, extensions) {
        return false;
    }
    match relative_path {
        Some(rel) => {
            let rv = chars_of(rel);
            matches_any_pattern(&rv, exclude_patterns)
        },
        None => false,
    }
}

// ------------------------------------------------------------------------
// Path comments
// ------------------------------------------------------------------------
/// `path` relative to `base` (`Path::strip_prefix`, displayed), when `base`
/// is a prefix of it.
pub uninterp spec fn path_strip_prefix(path: Seq<char>, base: Seq<char>) -> Option<Seq<char>>;

/// `Path::new(path).strip_prefix(base)`, displayed as a string; `None` when
/// `base` is not a prefix of `path`. The contract names the result only.
#[verifier::external_body]
fn strip_path_prefix(path: &str, base: &str) -> (r: Option<String>)
    ensures
        r matches Some(s) ==> path_strip_prefix(path@, base@) == Some(s@),
        r is None ==> path_strip_prefix(path@, base@) is None,
{
    match std::path::Path::new(path).strip_prefix(base) {
        Ok(p) => Some(p.display().to_string()),
        Err(_) => None,
    }
}

/// Whether a file starts with a comment naming its path: its first line is
/// `// ` followed by the path as given, or by the path relative to the
/// source directory when it lies there. A file that could not be read, or
/// has no lines, does not.
pub open spec fn valid_path_comment(source_dir: Seq<char>, file_path: Seq<char>, content: Option<Seq<char>>) -> bool {
    match content {
        None => false,
        Some(c) => {
            let ls = lines(c);
            if ls.len() == 0 {
                false
            } else {
                match path_strip_prefix(file_path, source_dir) {
                    Some(rel) => ls[0] == "// "@ + file_path || ls[0] == "// "@ + rel,
                    None => ls[0] == "// "@ + file_path,
                }
            }
        },
    }
}

/// Whether a file, with the content read for it, carries a valid path comment.
pub fn is_valid_path_comment(project: &Project, file_path: &str, content: Option<&str>) -> (r: bool)
    ensures
        r == valid_path_comment(project.source_dir@, file_path@, match content { Some(c) => Some(c@), None => None }),
{
    match content {
        None => false,
        Some(c) => {
            let cv = chars_of(c);
            let ls = lines_exec(&cv);
            if ls.len() == 0 {
                return false;
            }
            let mut expected = chars_of("// ");
            append_str(&mut expected, file_path);
            let first_is_path = crate::text::chars_eq(&ls[0], &expected);
            match strip_path_prefix(file_path, project.source_dir.as_str()) {
                Some(rel) => {
                    let mut expected2 = chars_of("// ");
                    append_str(&mut expected2, rel.as_str());
                    first_is_path || crate::text::chars_eq(&ls[0], &expected2)
                },
                None => first_is_path,
            }
        },
    }
}

/// The described files whose path comment is missing or wrong.
pub open spec fn invalid_described(project: Project, contents: Seq<Option<String>>, n: int) -> Seq<Seq<char>>
    decreases n,
{
    if n <= 0 {
        seq![]
    } else {
        let fp = project.file_descriptions@[n - 1].0@;
        let c = match contents[n - 1] {
            Some(s) => Some(s@),
            None => None,
        };
        invalid_described(project, contents, n - 1) + if valid_path_comment(project.source_dir@, fp, c) {
            seq![]
        } else {
            seq![fp]
        }
    }
}

/// The described files without a valid path comment, each paired with
/// `false`, in the order of the descriptions; `contents[i]` is what was read
/// for the `i`-th described file.
pub fn validate_file_paths(project: &Project, contents: &Vec<Option<String>>) -> (r: Vec<(String, bool)>)
    requires
        contents@.len() == project.file_descriptions@.len(),
    ensures
        r@.map_values(|e: (String, bool)| e.0@) == invalid_described(*project, contents@, contents@.len() as int),
        forall|i: int| 0 <= i < r@.len() ==> !#[trigger] r@[i].1,
{
    let mut r: Vec<(String, bool)> = Vec::new();
    let mut i: usize = 0;
    while i < contents.len()
        invariant
            i <= contents.len(),
            contents@.len() == project.file_descriptions@.len(),
            r@.map_values(|e: (String, bool)| e.0@) == invalid_described(*project, contents@, i as int),
            forall|j: int| 0 <= j < r@.len() ==> !#[trigger] r@[j].1,
        decreases contents.len() - i,
    {
        let fp = &project.file_descriptions[i].0;
        let c: Option<&str> = match &contents[i] {
            Some(s) => Some(s.as_str()),
            None => None,
        };
        let ok = is_valid_path_comment(project, fp.as_str(), c);
        if !ok {
            let ghost before = r@;
            r.push((fp.clone(), false));
            assert(r@.map_values(|e: (String, bool)| e.0@) =~= before.map_values(|e: (String, bool)| e.0@).push(fp@));
        }
        i += 1;
    }
    r
}

// ------------------------------------------------------------------------
// Where files and summaries live
// ------------------------------------------------------------------------
/// The summary file of a source file: in `<output_dir>/<project>`, named
/// after the source path with `/` turned into `*` and `.yml` added.
pub open spec fn summary_path(output_dir: Seq<char>, project_name: Seq<char>, source_path: Seq<char>) -> Seq<char> {
    path_join(path_join(output_dir, project_name), replace(source_path, "/"@, "*"@) + ".yml"@)
}

/// The summary file of a source file.
pub fn yaml_path_for(output_dir: &str, project_name: &str, source_path: &str) -> (r: String)
    ensures
        r@ == summary_path(output_dir@, project_name@, source_path@),
{
    let dir = join_path(output_dir, project_name);
    let sp = chars_of(source_path);
    let mut name = replace_str(&sp, "/", "*");
    append_str(&mut name, ".yml");
    let ns = string_of(&name);
    join_path(dir.as_str(), ns.as_str())
}

/// The two places a file is looked for, in order: the path joined to the
/// source directory, then the path without leading `/` joined to it.
pub fn specific_file_candidates(project: &Project, file_path: &str) -> (r: (String, String))
    ensures
        r.0@ == path_join(project.source_dir@, file_path@),
        r.1@ == path_join(project.source_dir@, trim_start_matches(file_path@, "/"@)),
{
    let first = join_path(project.source_dir.as_str(), file_path);
    let fp = chars_of(file_path);
    let slash = chars_of("/");
    let t = trim_start_matches_exec(&fp, &slash);
    let ts = string_of(&t);
    let second = join_path(project.source_dir.as_str(), ts.as_str());
    (first, second)
}

// ------------------------------------------------------------------------
// Update checks
// ------------------------------------------------------------------------
/// What was observed of a source file for the update check.
pub struct UpdateFacts {
    /// The source path, as listed.
    pub source_path: String,
    /// Whether the ignore files exclude it.
    pub ignored: bool,
    /// Whether its summary file exists.
    pub yaml_exists: bool,
    /// Git hash and modification times.
    pub change: ChangeFacts,
}

/// Whether a file's summary must be generated again: never for an ignored
/// file; always when there is no summary; by Git hash when one was read;
/// else when a modification time cannot be read or the source is newer than
/// its summary.
pub open spec fn summary_stale(project: Project, f: UpdateFacts) -> bool {
    if f.ignored {
        false
    } else if !f.yaml_exists {
        true
    } else {
        match f.change.git_blob_hash {
            Some(h) => git_says_changed(project.embeddings@, f.source_path@, h@),
            None => match (f.change.source_modified, f.change.yaml_modified) {
                (Some(s), Some(y)) => s > y,
                _ => true,
            },
        }
    }
}

/// Whether a file's summary must be generated again.
pub fn needs_yaml_update(project: &Project, facts: &UpdateFacts) -> (r: bool)
    ensures
        r == summary_stale(*project, *facts),
{
    if facts.ignored {
        return false;
    }
    if !facts.yaml_exists {
        return true;
    }
    match &facts.change.git_blob_hash {
        Some(h) => match crate::models::position_of(&project.embeddings, &facts.source_path) {
            Some(i) => match &project.embeddings[i].1.git_blob_hash {
                Some(stored) => !stored.eq(h),
                None => true,
            },
            None => true,
        },
        None => match (facts.change.source_modified, facts.change.yaml_modified) {
            (Some(s), Some(y)) => s > y,
            _ => true,
        },
    }
}

/// Whether any listed file's summary must be generated again.
pub fn project_needs_update(project: &Project, files: &Vec<UpdateFacts>) -> (r: bool)
    ensures
        r == exists|i: int| 0 <= i < files@.len() && summary_stale(*project, #[trigger] files@[i]),
{
    let mut i: usize = 0;
    while i < files.len()
        invariant
            i <= files.len(),
            forall|j: int| 0 <= j < i ==> !summary_stale(*project, #[trigger] files@[j]),
        decreases files.len() - i,
    {
        if needs_yaml_update(project, &files[i]) {
            return true;
        }
        i += 1;
    }
    false
}

// ------------------------------------------------------------------------
// The service
// ------------------------------------------------------------------------
/// Operations on a project's source files.
pub struct FileService;

impl FileService {
    /// The imports of a source file in the given language, and the file
    /// without them.
    pub fn extract_imports(&self, file_content: &str, language: &str) -> (r: (Vec<String>, String))
        ensures
            (views(r.0@), r.1@) == extracted_imports(file_content@, language@),
    {
        extract_imports(file_content, language)
    }

    /// The described files without a valid path comment.
    pub fn validate_file_paths(&self, project: &Project, contents: &Vec<Option<String>>) -> (r: Vec<(String, bool)>)
        requires
            contents@.len() == project.file_descriptions@.len(),
        ensures
            r@.map_values(|e: (String, bool)| e.0@) == invalid_described(*project, contents@, contents@.len() as int),
            forall|i: int| 0 <= i < r@.len() ==> !#[trigger] r@[i].1,
    {
        validate_file_paths(project, contents)
    }

    /// Whether a file, with the content read for it, carries a valid path comment.
    pub fn is_valid_path_comment(&self, project: &Project, file_path: &str, content: Option<&str>) -> (r: bool)
        ensures
            r == valid_path_comment(project.source_dir@, file_path@, match content { Some(c) => Some(c@), None => None }),
    {
        is_valid_path_comment(project, file_path, content)
    }

    /// Whether a file's summary must be generated again.
    pub fn needs_yaml_update(&self, project: &Project, facts: &UpdateFacts) -> (r: bool)
        ensures
            r == summary_stale(*project, *facts),
    {
        needs_yaml_update(project, facts)
    }

    /// Whether any listed file's summary must be generated again.
    pub fn project_needs_update(&self, project: &Project, files: &Vec<UpdateFacts>) -> (r: bool)
        ensures
            r == exists|i: int| 0 <= i < files@.len() && summary_stale(*project, #[trigger] files@[i]),
    {
        project_needs_update(project, files)
    }
}

} // verus!
