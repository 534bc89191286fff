//! Reading the generated YAML summaries back: front-matter descriptions, the
//! HTML shown for each summary, ignore files and orphaned summaries.
use vstd::prelude::*;
use crate::models::{
    EmbeddingMetadata, Project, has_key, lemma_without_key_unique, same_but_embeddings, without_key,
};
use crate::text::{
    append_chars, append_str, chars_of, decimal, decimal_exec, ends_with, eq_str, has_prefix_str,
    has_suffix, lines, lines_exec, replace, replace_chars2, replace_chars2_exec, replace_str,
    contains, lemma_find_from_first, lemma_replace_char, lemma_replace_trailing, slice,
    starts_with, string_of, swap_char, trim, trim_end, is_ws, trim_end_exec, trim_end_matches,
    trim_end_matches_exec, trim_exec, trim_matches_char, trim_matches_char_exec, trim_start,
    trim_start_exec, trim_start_matches, trim_start_matches_exec,
};

verus! {

// ------------------------------------------------------------------------
// Front matter
// ------------------------------------------------------------------------
/// The description collected so far, if any, without its final whitespace.
pub open spec fn finish_description(desc: Seq<char>) -> Option<Seq<char>> {
    if desc.len() == 0 {
        None
    } else {
        Some(trim_end(desc))
    }
}

/// Scans the front-matter lines `ls` for the `description:` key.
pub open spec fn scan_description(ls: Seq<Seq<char>>, in_block: bool, desc: Seq<char>) -> Option<
    Seq<char>,
>
    decreases ls.len(),
{
    if ls.len() == 0 {
        finish_description(desc)
    } else {
        let line = ls[0];
        let t = trim_start(line);
        if t == "---"@ {
            finish_description(desc)
        } else if !in_block {
            if starts_with(t, "description:"@) {
                let rest = trim(t.skip("description:"@.len() as int));
                if rest.len() > 0 && (rest[0] == '|' || rest[0] == '>') {
                    scan_description(ls.drop_first(), true, desc)
                } else if rest.len() > 0 {
                    Some(trim_matches_char(rest, '"'))
                } else {
                    scan_description(ls.drop_first(), true, desc)
                }
            } else {
                scan_description(ls.drop_first(), false, desc)
            }
        } else if line.len() > 0 && (line[0] == ' ' || line[0] == '\t') {
            scan_description(ls.drop_first(), true, desc + trim_start(line) + "\n"@)
        } else {
            finish_description(desc)
        }
    }
}

/// A `description:` value that starts a block scalar (`|` or `>`) is not the
/// description: the indented line that follows is.
pub proof fn law_block_scalar_takes_following_lines(marker: char, x: Seq<char>)
    requires
        marker == '|' || marker == '>',
        x.len() > 0,
        !is_ws(x[0]),
        !is_ws(x.last()),
        x != "---"@,
    ensures
        scan_description(seq!["description: "@.push(marker), " "@ + x], false, seq![]) == Some(x),
{
    reveal_strlit("description: ");
    reveal_strlit("description:");
    reveal_strlit("---");
    reveal_strlit(" ");
    reveal_strlit("\n");
    let h = "description: "@.push(marker);
    let ind = " "@ + x;
    let ls = seq![h, ind];
    assert(trim_start(h) == h);
    assert(h != "---"@) by {
        assert(h.len() != "---"@.len());
    }
    assert(starts_with(h, "description:"@));
    let after = h.skip("description:"@.len() as int);
    assert(after =~= seq![' ', marker]);
    assert(after.drop_first() =~= seq![marker]);
    assert(trim_start(seq![marker]) == seq![marker]);
    assert(trim_start(after) == seq![marker]);
    assert(seq![marker].drop_last() =~= Seq::<char>::empty());
    assert(trim_end(seq![marker]) == seq![marker]);
    assert(trim(after) == seq![marker]);
    assert(ls.drop_first() =~= seq![ind]);
    assert(scan_description(ls, false, seq![]) == scan_description(seq![ind], true, seq![]));
    assert(ind.drop_first() =~= x);
    assert(trim_start(x) == x);
    assert(trim_start(ind) == x);
    assert(ind[0] == ' ');
    let d = Seq::<char>::empty() + x + "\n"@;
    assert(d =~= x.push('\n'));
    assert(seq![ind].drop_first() =~= Seq::<Seq<char>>::empty());
    assert(scan_description(seq![ind], true, seq![]) == scan_description(Seq::<Seq<char>>::empty(), true, d));
    assert(x.push('\n').drop_last() =~= x);
    assert(trim_end(x) == x);
    assert(trim_end(x.push('\n')) == x);
}

/// The `description` of a YAML document's front matter: the document must start
/// with a `---` line; the value is either inline (quotes stripped) or a block
/// of indented lines.
pub open spec fn description_of(content: Seq<char>) -> Option<Seq<char>> {
    let ls = lines(content);
    if ls.len() == 0 || ls[0] != "---"@ {
        None
    } else {
        scan_description(ls.drop_first(), false, seq![])
    }
}

/// The description in the front matter of a YAML summary.
pub fn parse_description(content: &str) -> (res: Option<String>)
    ensures
        res matches Some(s) ==> description_of(content@) == Some(s@),
        res is None ==> description_of(content@) is None,
{
    let c = chars_of(content);
    let ls = lines_exec(&c);
    let ghost lsv = lines(content@);
    if ls.len() == 0 || !eq_str(&ls[0], "---") {
        return None;
    }
    let mut in_block = false;
    let mut desc: Vec<char> = Vec::new();
    let mut i: usize = 1;
    assert(lsv.skip(1) =~= lsv.drop_first());
    let dkey = chars_of("description:");
    while i < ls.len()
        invariant
            1 <= i <= ls.len(),
            lsv == lines(content@),
            dkey@ == "description:"@,
            ls@.len() == lsv.len(),
            forall|k: int| 0 <= k < ls@.len() ==> #[trigger] ls@[k]@ == lsv[k],
            description_of(content@) == scan_description(lsv.skip(i as int), in_block, desc@),
        decreases ls.len() - i,
    {
        let ghost rest = lsv.skip(i as int);
        let ghost d0 = desc@;
        let ghost b0 = in_block;
        assert(rest[0] == ls@[i as int]@);
        assert(rest.drop_first() =~= lsv.skip(i + 1));
        let line = &ls[i];
        let t = trim_start_exec(line);
        if eq_str(&t, "---") {
            return finish(&desc);
        }
        if !in_block {
            if has_prefix_str(&t, "description:") {
                let after = slice(&t, dkey.len(), t.len());
                assert(after@ =~= t@.skip("description:"@.len() as int));
                let r = trim_exec(&after);
                if r.len() > 0 && (r[0] == '|' || r[0] == '>') {
                    in_block = true;
                } else if r.len() > 0 {
                    let q = trim_matches_char_exec(&r, '"');
                    return Some(string_of(&q));
                } else {
                    in_block = true;
                }
            }
        } else {
            if line.len() > 0 && (line[0] == ' ' || line[0] == '\t') {
                let body = trim_start_exec(line);
                append_chars(&mut desc, &body);
                desc.push('\n');
                proof {
                    reveal_strlit("\n");
                }
                assert(desc@ =~= d0 + trim_start(rest[0]) + "\n"@);
            } else {
                return finish(&desc);
            }
        }
        assert(scan_description(rest, b0, d0) == scan_description(lsv.skip(i + 1), in_block, desc@));
        i += 1;
    }
    assert(lsv.skip(i as int) =~= Seq::<Seq<char>>::empty());
    finish(&desc)
}

fn finish(desc: &Vec<char>) -> (res: Option<String>)
    ensures
        res matches Some(s) ==> finish_description(desc@) == Some(s@),
        res is None ==> finish_description(desc@) is None,
{
    if desc.len() == 0 {
        None
    } else {
        let t = trim_end_exec(desc);
        Some(string_of(&t))
    }
}

// ------------------------------------------------------------------------
// Summary pages
// ------------------------------------------------------------------------
/// The description shown for a summary: its front-matter description (or
/// "No description."), line breaks turned into spaces, trimmed.
pub open spec fn shown_description(content: Seq<char>) -> Seq<char> {
    let d = match description_of(content) {
        Some(d) => d,
        None => "No description."@,
    };
    trim(replace_chars2(d, '\n', '\r', ' '))
}

/// The "Suggest Split" button, offered for sources longer than 200 lines.
pub open spec fn split_button(line_count: nat, project_name: Seq<char>, source_path: Seq<char>) -> Seq<
    char,
> {
    if line_count > 200 {
        "<button onclick=\"suggestSplit('"@ + project_name + "', '"@ + source_path
            + "')\">Suggest Split</button>"@
    } else {
        seq![]
    }
}

/// The HTML block shown for one YAML summary.
pub open spec fn summary_html(
    yaml_path: Seq<char>,
    source_path: Seq<char>,
    content: Seq<char>,
    project_name: Seq<char>,
    line_count: nat,
) -> Seq<char> {
    "<div class=\"page\"><p>---</p><h3 data-lines=\""@ + decimal(line_count) + "\">path: "@
        + source_path + "</h3><pre>"@ + replace(replace(content, "---\n"@, ""@), "```"@, ""@)
        + "</pre><button onclick=\"regenerate('"@ + project_name + "', '"@ + yaml_path
        + "')\">Regenerate</button>"@ + split_button(line_count, project_name, source_path)
        + "</div>"@
}

/// The views of a list of `(path, description)` pairs.
pub open spec fn pair_views(v: Seq<(String, String)>) -> Seq<(Seq<char>, Seq<char>)> {
    v.map_values(|p: (String, String)| (p.0@, p.1@))
}

/// The HTML for one YAML summary; records the summary's description in
/// `file_descriptions`.  `line_count` is the number of lines of the source file
/// (0 when it cannot be read).
pub fn generate_html(
    yaml_path: &str,
    source_path: &str,
    content: String,
    project_name: &str,
    file_descriptions: &mut Vec<(String, String)>,
    line_count: usize,
) -> (html: String)
    ensures
        html@ == summary_html(yaml_path@, source_path@, content@, project_name@, line_count as nat),
        pair_views(final(file_descriptions)@) == pair_views(old(file_descriptions)@).push(
            (source_path@, shown_description(content@)),
        ),
{
    let d = match parse_description(content.as_str()) {
        Some(d) => chars_of(d.as_str()),
        None => chars_of("No description."),
    };
    let d2 = replace_chars2_exec(&d, '\n', '\r', ' ');
    let d3 = trim_exec(&d2);
    file_descriptions.push((source_path.to_string(), string_of(&d3)));
    assert(pair_views(file_descriptions@) =~= pair_views(old(file_descriptions)@).push(
        (source_path@, shown_description(content@)),
    ));
    let mut button: Vec<char> = Vec::new();
    if line_count > 200 {
        append_str(&mut button, "<button onclick=\"suggestSplit('");
        append_str(&mut button, project_name);
        append_str(&mut button, "', '");
        append_str(&mut button, source_path);
        append_str(&mut button, "')\">Suggest Split</button>");
    }
    assert(button@ =~= split_button(line_count as nat, project_name@, source_path@));
    let c = chars_of(content.as_str());
    let body1 = replace_str(&c, "---\n", "");
    let body = replace_str(&body1, "```", "");
    let mut out: Vec<char> = Vec::new();
    append_str(&mut out, "<div class=\"page\"><p>---</p><h3 data-lines=\"");
    let dec = decimal_exec(line_count);
    append_chars(&mut out, &dec);
    append_str(&mut out, "\">path: ");
    append_str(&mut out, source_path);
    append_str(&mut out, "</h3><pre>");
    append_chars(&mut out, &body);
    append_str(&mut out, "</pre><button onclick=\"regenerate('");
    append_str(&mut out, project_name);
    append_str(&mut out, "', '");
    append_str(&mut out, yaml_path);
    append_str(&mut out, "')\">Regenerate</button>");
    append_chars(&mut out, &button);
    append_str(&mut out, "</div>");
    string_of(&out)
}


// ------------------------------------------------------------------------
// Summary file names
// ------------------------------------------------------------------------
/// The source path that a summary file name stands for: `.yml` dropped, `*`
/// turned back into `/`.
pub open spec fn source_path_of(file_name: Seq<char>) -> Seq<char> {
    replace(replace(file_name, ".yml"@, ""@), "*"@, "/"@)
}

/// The summary file name of a source path: `/` turned into `*`, `.yml` added.
pub open spec fn yaml_file_name_of(source_path: Seq<char>) -> Seq<char> {
    replace(source_path, "/"@, "*"@) + ".yml"@
}

/// The source path that a summary file name stands for.
pub fn source_path_for_yaml_name(file_name: &str) -> (r: String)
    ensures
        r@ == source_path_of(file_name@),
{
    let f = chars_of(file_name);
    let a = replace_str(&f, ".yml", "");
    let b = replace_str(&a, "*", "/");
    string_of(&b)
}

/// The summary file name of a source path.
pub fn yaml_name_for_source(source_path: &str) -> (r: String)
    ensures
        r@ == yaml_file_name_of(source_path@),
{
    let f = chars_of(source_path);
    let mut a = replace_str(&f, "/", "*");
    append_str(&mut a, ".yml");
    string_of(&a)
}

/// A source path with no `*` and no `.yml` in it is given back by the summary
/// file name made from it.
pub proof fn law_summary_name_round_trip(p: Seq<char>)
    requires
        !p.contains('*'),
        !contains(p, ".yml"@),
    ensures
        source_path_of(yaml_file_name_of(p)) == p,
{
    reveal_strlit(".yml");
    reveal_strlit("/");
    reveal_strlit("*");
    reveal_strlit("");
    let y = ".yml"@;
    assert("/"@ =~= seq!['/']);
    assert("*"@ =~= seq!['*']);
    lemma_replace_char(p, '/', '*');
    let q = swap_char(p, '/', '*');
    assert forall|i: int| 0 <= i < q.len() implies !starts_with(#[trigger] (q + y).skip(i), y) by {
        if starts_with((q + y).skip(i), y) {
            if i + 4 <= q.len() {
                assert forall|k: int| 0 <= k < 4 implies p.skip(i).take(4)[k] == y[k] by {
                    assert((q + y).skip(i).take(4)[k] == y[k]);
                    assert(q[i + k] == y[k]);
                }
                assert(p.skip(i).take(4) =~= y);
                lemma_find_from_first(p, y, 0, i);
            } else {
                let k = q.len() - i;
                assert((q + y).skip(i).take(4)[k] == y[k]);
                assert((q + y)[q.len() as int] == '.');
            }
        }
    }
    lemma_replace_trailing(q, y, ""@);
    assert(q + ""@ =~= q);
    lemma_replace_char(q, '*', '/');
    assert(swap_char(q, '*', '/') =~= p) by {
        assert forall|j: int| 0 <= j < p.len() implies swap_char(q, '*', '/')[j] == p[j] by {
            assert(p[j] != '*');
        }
    }
}

// ------------------------------------------------------------------------
// Ignore files
// ------------------------------------------------------------------------
/// Whether the path `rel` (relative to the project root) matches one ignore pattern:
/// `dir/*` and `dir/` match by prefix, any other pattern matches itself and
/// everything below it.
pub open spec fn matches_ignore_pattern(rel: Seq<char>, pattern: Seq<char>) -> bool {
    if ends_with(pattern, "/*"@) {
        starts_with(rel, trim_end_matches(pattern, "/*"@))
    } else if ends_with(pattern, "/"@) {
        starts_with(rel, trim_end_matches(pattern, "/"@))
    } else {
        rel == pattern || starts_with(rel, pattern + "/"@)
    }
}

/// A pattern that does not end with `/` or `/*` ignores the path it names and
/// every path below it.
pub proof fn law_plain_pattern_covers_below(pattern: Seq<char>, below: Seq<char>)
    requires
        !ends_with(pattern, "/"@),
        !ends_with(pattern, "/*"@),
    ensures
        matches_ignore_pattern(pattern, pattern),
        matches_ignore_pattern(pattern + "/"@ + below, pattern),
{
    assert((pattern + "/"@ + below).take((pattern + "/"@).len() as int) =~= pattern + "/"@);
}

/// Whether `rel` matches some pattern of `patterns`.
pub open spec fn matches_any(rel: Seq<char>, patterns: Seq<String>) -> bool {
    exists|i: int| 0 <= i < patterns.len() && matches_ignore_pattern(rel, #[trigger] patterns[i]@)
}

/// Whether `rel` matches one ignore pattern.
pub fn matches_pattern(rel: &Vec<char>, pattern: &String) -> (r: bool)
    ensures
        r == matches_ignore_pattern(rel@, pattern@),
{
    let p = chars_of(pattern.as_str());
    let star = chars_of("/*");
    let slash = chars_of("/");
    if has_suffix(&p, &star) {
        let d = trim_end_matches_exec(&p, &star);
        crate::text::has_prefix(rel, &d)
    } else if has_suffix(&p, &slash) {
        let d = trim_end_matches_exec(&p, &slash);
        crate::text::has_prefix(rel, &d)
    } else {
        let mut ps = slice(&p, 0, p.len());
        ps.push('/');
        proof {
            reveal_strlit("/");
        }
        assert(ps@ =~= pattern@ + "/"@);
        crate::text::chars_eq(rel, &p) || crate::text::has_prefix(rel, &ps)
    }
}

/// Whether `rel` matches some pattern of `patterns`.
pub fn matches_any_pattern(rel: &Vec<char>, patterns: &Vec<String>) -> (r: bool)
    ensures
        r == matches_any(rel@, patterns@),
{
    let mut i: usize = 0;
    while i < patterns.len()
        invariant
            i <= patterns.len(),
            forall|j: int| 0 <= j < i ==> !matches_ignore_pattern(rel@, #[trigger] patterns@[j]@),
        decreases patterns.len() - i,
    {
        if matches_pattern(rel, &patterns[i]) {
            return true;
        }
        i += 1;
    }
    false
}

/// Whether a file is ignored, given its path relative to the project root
/// (`None` when it lies outside the root) and the patterns of the project's
/// `.assistantignore`, `.assistantexcludesearch` and `.gitignore` files.
pub open spec fn ignored_by(
    relative_path: Option<Seq<char>>,
    assistant_ignore: Seq<String>,
    exclude_search: Seq<String>,
    git_ignore: Seq<String>,
) -> bool {
    match relative_path {
        None => false,
        Some(rel) => matches_any(rel, assistant_ignore) || matches_any(rel, exclude_search)
            || matches_any(rel, git_ignore),
    }
}

/// Whether a file is ignored by the project's ignore files.
pub fn is_file_ignored(
    relative_path: Option<&str>,
    assistant_ignore: &Vec<String>,
    exclude_search: &Vec<String>,
    git_ignore: &Vec<String>,
) -> (r: bool)
    ensures
        r == ignored_by(
            match relative_path {
                None => None,
                Some(p) => Some(p@),
            },
            assistant_ignore@,
            exclude_search@,
            git_ignore@,
        ),
{
    match relative_path {
        None => false,
        Some(p) => {
            let rel = chars_of(p);
            matches_any_pattern(&rel, assistant_ignore) || matches_any_pattern(&rel, exclude_search)
                || matches_any_pattern(&rel, git_ignore)
        },
    }
}

/// The pattern of one line of an ignore file, if it holds one: the line trimmed,
/// leading `/`s dropped; empty lines and `#` comments hold none.
pub open spec fn ignore_line_pattern(line: Seq<char>) -> Option<Seq<char>> {
    let n = trim_start_matches(trim(line), "/"@);
    if n.len() == 0 || starts_with(n, "#"@) {
        None
    } else {
        Some(n)
    }
}

/// The patterns of the lines `ls`, in order.
pub open spec fn ignore_patterns_of(ls: Seq<Seq<char>>) -> Seq<Seq<char>>
    decreases ls.len(),
{
    if ls.len() == 0 {
        seq![]
    } else {
        ignore_patterns_of(ls.drop_last()) + match ignore_line_pattern(ls.last()) {
            None => seq![],
            Some(p) => seq![p],
        }
    }
}

/// The patterns of an ignore file's content.
pub fn read_ignore_patterns(content: &str) -> (r: Vec<String>)
    ensures
        r@.map_values(|s: String| s@) == ignore_patterns_of(lines(content@)),
{
    let c = chars_of(content);
    let ls = lines_exec(&c);
    let ghost lsv = lines(content@);
    let slash = chars_of("/");
    let mut out: Vec<String> = Vec::new();
    let mut i: usize = 0;
    while i < ls.len()
        invariant
            i <= ls.len(),
            lsv == lines(content@),
            slash@ == "/"@,
            ls@.len() == lsv.len(),
            forall|k: int| 0 <= k < ls@.len() ==> #[trigger] ls@[k]@ == lsv[k],
            out@.map_values(|s: String| s@) == ignore_patterns_of(lsv.take(i as int)),
        decreases ls.len() - i,
    {
        assert(lsv.take(i + 1).drop_last() =~= lsv.take(i as int));
        assert(lsv.take(i + 1).last() == ls@[i as int]@);
        let t = trim_exec(&ls[i]);
        let n = trim_start_matches_exec(&t, &slash);
        let ghost before_push = out@;
        if n.len() > 0 && !has_prefix_str(&n, "#") {
            out.push(string_of(&n));
            assert(out@.map_values(|s: String| s@) =~= before_push.map_values(|s: String| s@).push(n@));
        }
        assert(out@.map_values(|s: String| s@) =~= ignore_patterns_of(lsv.take(i + 1)));
        i += 1;
    }
    assert(lsv.take(ls.len() as int) =~= lsv);
    out
}

// ------------------------------------------------------------------------
// Listing the summaries of a project
// ------------------------------------------------------------------------
/// What is known of one entry of a project's summary directory.
pub struct YamlEntry {
    /// The entry's file name.
    pub file_name: String,
    /// The entry's full path, as displayed.
    pub yaml_path: String,
    /// Whether the entry's extension is `yml`.
    pub is_yaml: bool,
    /// Whether the source file that the entry summarizes exists.
    pub source_exists: bool,
    /// Whether that source file is ignored by the project's ignore files.
    pub ignored: bool,
    /// The entry's content, or the error met reading it.
    pub content: Result<String, String>,
    /// The number of lines of the source file (0 when it cannot be read).
    pub line_count: usize,
}

/// The state of a walk over a summary directory: HTML so far, descriptions,
/// whether settings need saving, orphaned sources, remaining embeddings, error.
pub type WalkState = (
    Seq<char>,
    Seq<(Seq<char>, Seq<char>)>,
    bool,
    Seq<Seq<char>>,
    Seq<(String, EmbeddingMetadata)>,
    Option<Seq<char>>,
);

/// One step of the walk over a summary directory.
pub open spec fn walk_step(st: WalkState, e: YamlEntry, project_name: Seq<char>) -> WalkState {
    if st.5 is Some || e.file_name@ == "project_settings.json"@ || !e.is_yaml {
        st
    } else {
        let sp = source_path_of(e.file_name@);
        if !e.source_exists || e.ignored {
            (st.0, st.1, st.2 || has_key(st.4, sp), st.3.push(sp), without_key(st.4, sp), st.5)
        } else {
            match e.content {
                Err(msg) => (st.0, st.1, st.2, st.3, st.4, Some("Failed to read file: "@ + msg@)),
                Ok(c) => (
                    st.0 + summary_html(e.yaml_path@, sp, c@, project_name, e.line_count as nat),
                    st.1.push((sp, shown_description(c@))),
                    st.2,
                    st.3,
                    st.4,
                    st.5,
                ),
            }
        }
    }
}

/// The state after walking `entries`, starting with the embeddings `emb`.
pub open spec fn walk(entries: Seq<YamlEntry>, project_name: Seq<char>, emb: Seq<(String, EmbeddingMetadata)>) -> WalkState
    decreases entries.len(),
{
    if entries.len() == 0 {
        (seq![], seq![], false, seq![], emb, None)
    } else {
        walk_step(walk(entries.drop_last(), project_name, emb), entries.last(), project_name)
    }
}

proof fn lemma_walk_stops(entries: Seq<YamlEntry>, project_name: Seq<char>, emb: Seq<(String, EmbeddingMetadata)>, i: int, j: int)
    requires
        0 <= i <= j <= entries.len(),
        walk(entries.take(i), project_name, emb).5 is Some,
    ensures
        walk(entries.take(j), project_name, emb) == walk(entries.take(i), project_name, emb),
    decreases j - i,
{
    if j > i {
        lemma_walk_stops(entries, project_name, emb, i, j - 1);
        assert(entries.take(j).drop_last() =~= entries.take(j - 1));
    }
}

/// Removes the pairs with key `k`; tells whether there was one.
pub fn remove_key<V>(entries: &mut Vec<(String, V)>, k: &String) -> (removed: bool)
    ensures
        final(entries)@ == without_key(old(entries)@, k@),
        removed == has_key(old(entries)@, k@),
{
    let ghost orig = entries@;
    let mut kept: Vec<(String, V)> = Vec::new();
    let mut removed = false;
    let mut rest: Vec<(String, V)> = Vec::new();
    std::mem::swap(&mut rest, entries);
    let mut i: usize = 0;
    let n = rest.len();
    let mut pending = rest;
    assert(pending@ =~= orig.skip(0));
    while pending.len() > 0
        invariant
            n == orig.len(),
            pending@.len() + i == n,
            pending@ =~= orig.skip(i as int),
            kept@ =~= without_key(orig.take(i as int), k@),
            removed == has_key(orig.take(i as int), k@),
        decreases pending@.len(),
    {
        let e = pending.remove(0);
        assert(orig.take(i + 1).drop_last() =~= orig.take(i as int));
        assert(e == orig[i as int]);
        assert(orig.skip(i + 1) =~= orig.skip(i as int).drop_first());
        if e.0.eq(k) {
            removed = true;
            assert(has_key(orig.take(i + 1), k@)) by {
                assert(orig.take(i + 1)[i as int].0@ == k@);
            }
        } else {
            kept.push(e);
            assert(has_key(orig.take(i + 1), k@) == has_key(orig.take(i as int), k@)) by {
                if has_key(orig.take(i + 1), k@) {
                    let w = choose|w: int| 0 <= w < orig.take(i + 1).len() && #[trigger] orig.take(i + 1)[w].0@ == k@;
                    assert(orig.take(i as int)[w].0@ == k@);
                }
            }
        }
        proof {
            orig.take(i as int).lemma_filter_push(orig[i as int], |e: (String, V)| e.0@ != k@);
        }
        assert(orig.take(i as int).push(orig[i as int]) =~= orig.take(i + 1));
        i += 1;
    }
    assert(orig.take(n as int) =~= orig);
    *entries = kept;
    removed
}


/// Reads a project's YAML summaries back.
pub struct YamlProcessing;

impl YamlProcessing {
    pub fn new() -> Self {
        YamlProcessing {}
    }

    /// The description in the front matter of a YAML summary.
    pub fn parse_description(&self, content: &str) -> (res: Option<String>)
        ensures
            res matches Some(s) ==> description_of(content@) == Some(s@),
            res is None ==> description_of(content@) is None,
    {
        parse_description(content)
    }

    /// Walks the entries of a project's summary directory, in order: skips
    /// `project_settings.json` and files that are not `.yml`; an entry whose
    /// source file is gone or ignored is orphaned (its embedding record is
    /// dropped, and the settings need saving if there was one); any other
    /// entry contributes its HTML block and its description.  Stops at the first
    /// entry that cannot be read.
    ///
    /// Returns the HTML of all blocks, the descriptions, whether the settings
    /// need saving, and the orphaned source paths.
    pub fn process_yaml_files(
        &self,
        entries: &Vec<YamlEntry>,
        project_name: &str,
        project: &mut Project,
    ) -> (res: Result<(String, Vec<(String, String)>, bool, Vec<String>), String>)
        requires
            old(project).wf(),
        ensures
            final(project).wf(),
            same_but_embeddings(*final(project), *old(project)),
            ({
                let w = walk(entries@, project_name@, old(project).embeddings@);
                &&& final(project).embeddings@ == w.4
                &&& match res {
                    Ok(r) => w.5 is None && r.0@ == w.0 && pair_views(r.1@) == w.1 && r.2 == w.2
                        && r.3@.map_values(|s: String| s@) == w.3,
                    Err(e) => w.5 == Some(e@),
                }
            }),
    {
        let ghost emb0 = project.embeddings@;
        let mut html: Vec<char> = Vec::new();
        let mut descs: Vec<(String, String)> = Vec::new();
        let mut cleanup = false;
        let mut orphans: Vec<String> = Vec::new();
        let mut i: usize = 0;
        while i < entries.len()
            invariant
                i <= entries.len(),
                same_but_embeddings(*project, *old(project)),
                project.wf(),
                emb0 == old(project).embeddings@,
                ({
                    let w = walk(entries@.take(i as int), project_name@, emb0);
                    &&& w.5 is None
                    &&& html@ == w.0
                    &&& pair_views(descs@) == w.1
                    &&& cleanup == w.2
                    &&& orphans@.map_values(|s: String| s@) == w.3
                    &&& project.embeddings@ == w.4
                }),
            decreases entries.len() - i,
        {
            assert(entries@.take(i + 1).drop_last() =~= entries@.take(i as int));
            assert(entries@.take(i + 1).last() == entries@[i as int]);
            let e = &entries[i];
            let name = chars_of(e.file_name.as_str());
            if eq_str(&name, "project_settings.json") || !e.is_yaml {
                i += 1;
                continue;
            }
            let sp = source_path_for_yaml_name(e.file_name.as_str());
            if !e.source_exists || e.ignored {
                let ghost before_emb = project.embeddings@;
                let had = remove_key(&mut project.embeddings, &sp);
                proof {
                    lemma_without_key_unique(before_emb, sp@);
                }
                cleanup = cleanup || had;
                let ghost before = orphans@;
                orphans.push(sp);
                assert(orphans@.map_values(|s: String| s@) =~= before.map_values(|s: String| s@).push(sp@));
                i += 1;
                continue;
            }
            match &e.content {
                Err(msg) => {
                    let mut m = chars_of("Failed to read file: ");
                    append_str(&mut m, msg.as_str());
                    proof {
                        lemma_walk_stops(entries@, project_name@, emb0, i + 1, entries@.len() as int);
                        assert(entries@.take(entries@.len() as int) =~= entries@);
                    }
                    return Err(string_of(&m));
                },
                Ok(c) => {
                    let block = generate_html(
                        e.yaml_path.as_str(),
                        sp.as_str(),
                        c.clone(),
                        project_name,
                        &mut descs,
                        e.line_count,
                    );
                    let bv = chars_of(block.as_str());
                    append_chars(&mut html, &bv);
                },
            }
            i += 1;
        }
        assert(entries@.take(entries@.len() as int) =~= entries@);
        Ok((string_of(&html), descs, cleanup, orphans))
    }
}

} // verus!
