//! Extraction of import statements from source files.
use vstd::prelude::*;
use crate::text::{
    append_chars, append_str, before, before_str, chars_of, contains, contains_str, has_prefix_str,
    lines, lines_exec, second_piece, second_piece_str, slice, split, split_exec, starts_with,
    string_of, trim, trim_end_matches, trim_end_matches_exec, trim_exec, trim_start_matches,
    trim_start_matches_exec, eq_str, is_ws, trim_start,
};
use crate::javascript::{javascript_imports, js_scan};
use crate::python::{py_scan, python_imports};

verus! {

// ------------------------------------------------------------------------
// Rust `use` declarations
// ------------------------------------------------------------------------
/// A trimmed line that declares a `use` (public or not).
pub open spec fn is_use_line(trimmed: Seq<char>) -> bool {
    starts_with(trimmed, "use "@) || starts_with(trimmed, "pub use "@)
}

/// The path of a trimmed `use` line, without the keywords and the final `;`s.
pub open spec fn use_path(trimmed: Seq<char>) -> Seq<char> {
    trim(
        trim_end_matches(
            trim_start_matches(trim_start_matches(trimmed, "pub use "@), "use "@),
            ";"@,
        ),
    )
}

/// The imported name of one braced item, without an `as` alias.
pub open spec fn item_name(item: Seq<char>) -> Seq<char> {
    if contains(item, " as "@) {
        trim(before(item, " as "@))
    } else {
        item
    }
}

/// The full path of a braced item under `base`.
pub open spec fn item_path(base: Seq<char>, name: Seq<char>) -> Seq<char> {
    if base.len() == 0 {
        name
    } else if starts_with(name, "::"@) {
        base + name
    } else {
        base + "::"@ + name
    }
}

/// The imports named by the braced items `items` under `base`.
pub open spec fn braced_items(items: Seq<Seq<char>>, base: Seq<char>) -> Seq<Seq<char>>
    decreases items.len(),
{
    if items.len() == 0 {
        seq![]
    } else {
        let item = trim(items.last());
        braced_items(items.drop_last(), base) + if item.len() == 0 {
            seq![]
        } else {
            seq![trim_start_matches(item_path(base, item_name(item)), "::"@)]
        }
    }
}

/// The base path of a braced `use` path: the text before `{`, without a final `::`.
pub open spec fn brace_base(path: Seq<char>) -> Seq<char> {
    trim_end_matches(trim(before(path, "{"@)), "::"@)
}

/// The imports of a `use` path that holds braces.
pub open spec fn braced_imports(path: Seq<char>) -> Seq<Seq<char>> {
    match second_piece(path, "{"@) {
        None => seq![],
        Some(items_str) => braced_items(
            split(trim_end_matches(items_str, "}"@), ","@),
            brace_base(path),
        ),
    }
}

/// The imports declared by one line of Rust source.
pub open spec fn rust_line_imports(line: Seq<char>) -> Seq<Seq<char>> {
    let t = trim(line);
    if !is_use_line(t) {
        seq![]
    } else {
        let p = use_path(t);
        if contains(p, "{"@) {
            braced_imports(p)
        } else {
            seq![trim_start_matches(p, "::"@)]
        }
    }
}

/// The imports declared by the lines `ls`, in order.
pub open spec fn rust_imports_of(ls: Seq<Seq<char>>) -> Seq<Seq<char>>
    decreases ls.len(),
{
    if ls.len() == 0 {
        seq![]
    } else {
        rust_imports_of(ls.drop_last()) + rust_line_imports(ls.last())
    }
}

/// The lines of `ls` that are not `use` lines, each followed by a newline.
pub open spec fn rust_cleaned_of(ls: Seq<Seq<char>>) -> Seq<char>
    decreases ls.len(),
{
    if ls.len() == 0 {
        seq![]
    } else {
        rust_cleaned_of(ls.drop_last()) + if is_use_line(trim(ls.last())) {
            seq![]
        } else {
            ls.last() + "\n"@
        }
    }
}

/// Leading whitespace does not change where the trimmed text of a line starts.
proof fn lemma_trim_start_after_indent(indent: Seq<char>, line: Seq<char>)
    requires
        forall|i: int| 0 <= i < indent.len() ==> is_ws(#[trigger] indent[i]),
    ensures
        trim_start(indent + line) == trim_start(line),
    decreases indent.len(),
{
    if indent.len() > 0 {
        let rest = indent.drop_first();
        assert((indent + line)[0] == indent[0]);
        assert((indent + line).drop_first() =~= rest + line);
        assert forall|i: int| 0 <= i < rest.len() implies is_ws(#[trigger] rest[i]) by {
            assert(rest[i] == indent[i + 1]);
        }
        lemma_trim_start_after_indent(rest, line);
    } else {
        assert(indent + line =~= line);
    }
}

proof fn lemma_cleaned_one_line(line: Seq<char>)
    ensures
        rust_cleaned_of(seq![line]) == if is_use_line(trim(line)) { Seq::<char>::empty() } else { line + "\n"@ },
{
    let ls = seq![line];
    let e = Seq::<Seq<char>>::empty();
    assert(ls.drop_last() =~= e);
    assert(rust_cleaned_of(e) == Seq::<char>::empty());
    assert(rust_cleaned_of(ls) == rust_cleaned_of(ls.drop_last()) + if is_use_line(trim(ls.last())) {
        Seq::<char>::empty()
    } else {
        ls.last() + "\n"@
    });
    if is_use_line(trim(line)) {
        assert(rust_cleaned_of(ls) =~= Seq::<char>::empty());
    } else {
        assert(rust_cleaned_of(ls) =~= line + "\n"@);
    }
}

/// A `use` declaration counts whatever its indentation: an indented line
/// declares the same imports as the line without its indentation, and is
/// removed from the cleaned text exactly when that line is.
pub proof fn law_use_lines_ignore_indentation(indent: Seq<char>, line: Seq<char>)
    requires
        forall|i: int| 0 <= i < indent.len() ==> is_ws(#[trigger] indent[i]),
    ensures
        rust_line_imports(indent + line) == rust_line_imports(line),
        (rust_cleaned_of(seq![indent + line]).len() == 0) == (rust_cleaned_of(seq![line]).len() == 0),
{
    lemma_trim_start_after_indent(indent, line);
    assert(trim(indent + line) == trim(line));
    lemma_cleaned_one_line(indent + line);
    lemma_cleaned_one_line(line);
    reveal_strlit("\n");
}

/// A line is removed from the cleaned text exactly when it is a `use`
/// declaration; such a line without braces declares one import, and a line
/// that declares imports is removed.
pub proof fn law_removed_lines_declare_imports(line: Seq<char>)
    ensures
        (rust_cleaned_of(seq![line]).len() == 0) == (starts_with(trim(line), "use "@) || starts_with(trim(line), "pub use "@)),
        rust_cleaned_of(seq![line]).len() == 0 && !contains(use_path(trim(line)), "{"@) ==> rust_line_imports(line).len() == 1,
        rust_line_imports(line).len() > 0 ==> rust_cleaned_of(seq![line]).len() == 0,
{
    reveal_strlit("\n");
    lemma_cleaned_one_line(line);
    if !is_use_line(trim(line)) {
        assert(rust_line_imports(line) =~= Seq::<Seq<char>>::empty());
    }
}

/// The views of a vector of strings.
pub open spec fn views(v: Seq<String>) -> Seq<Seq<char>> {
    v.map_values(|s: String| s@)
}

fn push_string(out: &mut Vec<String>, v: &Vec<char>)
    ensures
        views(final(out)@) == views(old(out)@).push(v@),
{
    let s = string_of(v);
    out.push(s);
    assert(views(out@) =~= views(old(out)@).push(v@));
}

fn braced_items_exec(items: &Vec<Vec<char>>, base: &Vec<char>, out: &mut Vec<String>)
    ensures
        views(final(out)@) == views(old(out)@) + braced_items(
            items@.map_values(|v: Vec<char>| v@),
            base@,
        ),
{
    let ghost its = items@.map_values(|v: Vec<char>| v@);
    let mut i: usize = 0;
    while i < items.len()
        invariant
            i <= items.len(),
            its == items@.map_values(|v: Vec<char>| v@),
            views(out@) == views(old(out)@) + braced_items(its.take(i as int), base@),
        decreases items.len() - i,
    {
        assert(its.take(i + 1).drop_last() =~= its.take(i as int));
        let item = trim_exec(&items[i]);
        if item.len() > 0 {
            let name = if contains_str(&item, " as ") {
                let b = before_str(&item, " as ");
                trim_exec(&b)
            } else {
                let r = slice(&item, 0, item.len());
                assert(r@ =~= item@);
                r
            };
            assert(name@ == item_name(item@));
            let mut full: Vec<char> = Vec::new();
            if base.len() == 0 {
                append_chars(&mut full, &name);
            } else if has_prefix_str(&name, "::") {
                append_chars(&mut full, base);
                append_chars(&mut full, &name);
            } else {
                append_chars(&mut full, base);
                append_str(&mut full, "::");
                append_chars(&mut full, &name);
            }
            assert(full@ =~= item_path(base@, name@));
            let sep = chars_of("::");
            let trimmed = trim_start_matches_exec(&full, &sep);
            assert(its.take(i + 1).last() == items@[i as int]@);
            push_string(out, &trimmed);
            assert(views(out@) =~= views(old(out)@) + braced_items(its.take(i + 1), base@));
        } else {
            assert(views(out@) =~= views(old(out)@) + braced_items(its.take(i + 1), base@));
        }
        i += 1;
    }
    assert(its.take(items.len() as int) =~= its);
}

fn rust_line_imports_exec(line: &Vec<char>, out: &mut Vec<String>) -> (is_use: bool)
    ensures
        views(final(out)@) == views(old(out)@) + rust_line_imports(line@),
        is_use == is_use_line(trim(line@)),
{
    let t = trim_exec(line);
    if !(has_prefix_str(&t, "use ") || has_prefix_str(&t, "pub use ")) {
        assert(views(out@) =~= views(old(out)@) + rust_line_imports(line@));
        return false;
    }
    let a = chars_of("pub use ");
    let b = chars_of("use ");
    let c = chars_of(";");
    let t1 = trim_start_matches_exec(&t, &a);
    let t2 = trim_start_matches_exec(&t1, &b);
    let t3 = trim_end_matches_exec(&t2, &c);
    let p = trim_exec(&t3);
    if contains_str(&p, "{") {
        let pre = before_str(&p, "{");
        let pre_t = trim_exec(&pre);
        let colons = chars_of("::");
        let base = trim_end_matches_exec(&pre_t, &colons);
        match second_piece_str(&p, "{") {
            None => {
                assert(views(out@) =~= views(old(out)@) + rust_line_imports(line@));
            },
            Some(items_str) => {
                let close = chars_of("}");
                let body = trim_end_matches_exec(&items_str, &close);
                let comma = chars_of(",");
                proof {
                    reveal_strlit(",");
                }
                let items = split_exec(&body, &comma);
                assert(items@.map_values(|v: Vec<char>| v@) =~= split(body@, ","@));
                braced_items_exec(&items, &base, out);
            },
        }
    } else {
        let colons = chars_of("::");
        let stripped = trim_start_matches_exec(&p, &colons);
        push_string(out, &stripped);
        assert(views(out@) =~= views(old(out)@) + rust_line_imports(line@));
    }
    true
}

/// The `use` declarations of a Rust source file, and the file without them.
///
/// Each `use` / `pub use` line contributes its path, or for a braced list one
/// path per item (`base::item`, aliases dropped); every other line is kept,
/// followed by a newline.
pub fn rust_imports(file_content: &str) -> (res: (Vec<String>, String))
    ensures
        views(res.0@) == rust_imports_of(lines(file_content@)),
        res.1@ == rust_cleaned_of(lines(file_content@)),
{
    let content = chars_of(file_content);
    let ls = lines_exec(&content);
    let ghost lsv = lines(file_content@);
    let mut imports: Vec<String> = Vec::new();
    let mut cleaned: Vec<char> = Vec::new();
    let mut i: usize = 0;
    while i < ls.len()
        invariant
            i <= ls.len(),
            lsv == lines(file_content@),
            ls@.len() == lsv.len(),
            forall|k: int| 0 <= k < ls@.len() ==> #[trigger] ls@[k]@ == lsv[k],
            views(imports@) == rust_imports_of(lsv.take(i as int)),
            cleaned@ == rust_cleaned_of(lsv.take(i as int)),
        decreases ls.len() - i,
    {
        assert(lsv.take(i + 1).drop_last() =~= lsv.take(i as int));
        assert(lsv.take(i + 1).last() == ls@[i as int]@);
        let is_use = rust_line_imports_exec(&ls[i], &mut imports);
        if !is_use {
            append_chars(&mut cleaned, &ls[i]);
            append_str(&mut cleaned, "\n");
        }
        i += 1;
    }
    assert(lsv.take(ls.len() as int) =~= lsv);
    (imports, string_of(&cleaned))
}

/// The imports and cleaned text that `extract_imports` gives for a
/// language: Rust for `rs`, Python for `py`, JavaScript for `js` and `ts`;
/// any other language gives no imports and the text unchanged.
pub open spec fn extracted_imports(content: Seq<char>, language: Seq<char>) -> (Seq<Seq<char>>, Seq<char>) {
    let ls = lines(content);
    if language == "rs"@ {
        (rust_imports_of(ls), rust_cleaned_of(ls))
    } else if language == "py"@ {
        (py_scan(ls).imports, py_scan(ls).cleaned)
    } else if language == "js"@ || language == "ts"@ {
        (js_scan(ls).imports, js_scan(ls).cleaned)
    } else {
        (seq![], content)
    }
}

/// The imports of a source file in the given language (its extension), and
/// the file without them.
pub fn extract_imports(file_content: &str, language: &str) -> (r: (Vec<String>, String))
    ensures
        (views(r.0@), r.1@) == extracted_imports(file_content@, language@),
{
    let l = chars_of(language);
    if eq_str(&l, "rs") {
        rust_imports(file_content)
    } else if eq_str(&l, "py") {
        python_imports(file_content)
    } else if eq_str(&l, "js") || eq_str(&l, "ts") {
        javascript_imports(file_content)
    } else {
        let v: Vec<String> = Vec::new();
        assert(views(v@) =~= seq![]);
        (v, string_of(&chars_of(file_content)))
    }
}

} // verus!
