//! Import statements of Python sources.
//!
//! Lines are matched against three regular expressions (plain `import`,
//! `from ... import`, and a trailing backslash that continues a statement);
//! what a match yields is named by `regex_groups_of`, and everything done
//! with the groups is stated here.
use vstd::prelude::*;
use crate::imports::views;
use crate::pattern::{groups_view, regex_groups, regex_groups_of};
use crate::text::{
    append_chars, append_str, before, before_str, chars_of, contains, contains_str, has_prefix_str,
    lines, lines_exec, replace, replace_str, split, split_exec, starts_with, string_of, trim,
    trim_exec, trim_start_matches, trim_start_matches_exec,
};

verus! {

/// `import a, b` at the start of a line.
pub open spec fn import_pattern() -> Seq<char> {
    r"^\s*import\s+(.+)$"@
}

/// `from module import a, b` at the start of a line.
pub open spec fn from_pattern() -> Seq<char> {
    r"^\s*from\s+([.\w_]+)\s+import\s+(.+)$"@
}

/// A line that ends with a backslash (the statement goes on).
pub open spec fn continued_pattern() -> Seq<char> {
    r".*\\\s*$"@
}

/// The entries of an import list (`a, b as c`), each without its alias and
/// trimmed, behind `prefix`; empty entries are dropped.
pub open spec fn listed_names(pieces: Seq<Seq<char>>, prefix: Seq<char>) -> Seq<Seq<char>>
    decreases pieces.len(),
{
    if pieces.len() == 0 {
        seq![]
    } else {
        let c = trim(before(trim(pieces.last()), " as "@));
        listed_names(pieces.drop_last(), prefix) + if c.len() > 0 {
            seq![prefix + c]
        } else {
            seq![]
        }
    }
}

/// Imports named by a match of the plain `import` pattern.
pub open spec fn import_names(g: Option<(Option<Seq<char>>, Option<Seq<char>>)>) -> Seq<Seq<char>> {
    match g {
        Some((Some(names), _)) => listed_names(split(names, ","@), seq![]),
        _ => seq![],
    }
}

/// Imports named by a match of the `from` pattern: `module.name` for each entry.
pub open spec fn from_names(g: Option<(Option<Seq<char>>, Option<Seq<char>>)>) -> Seq<Seq<char>> {
    match g {
        Some((Some(module), Some(names))) => listed_names(split(names, ","@), trim(module) + "."@),
        _ => seq![],
    }
}

/// Every piece trimmed.
pub open spec fn trimmed_pieces(pieces: Seq<Seq<char>>) -> Seq<Seq<char>>
    decreases pieces.len(),
{
    if pieces.len() == 0 {
        seq![]
    } else {
        trimmed_pieces(pieces.drop_last()).push(trim(pieces.last()))
    }
}

/// Imports of a completed multi-line statement `b`, given the match of the
/// `from` pattern on `from ` followed by `b`.
pub open spec fn buffered_imports(b: Seq<char>, from_g: Option<(Option<Seq<char>>, Option<Seq<char>>)>) -> Seq<Seq<char>> {
    if starts_with(b, "import "@) {
        trimmed_pieces(split(trim(replace(trim_start_matches(b, "import "@), "\\"@, ""@)), ","@))
    } else if contains(b, " import "@) {
        from_names(from_g)
    } else {
        seq![]
    }
}

/// The state of a scan: imports found, lines kept, and a statement that
/// continues on the next line.
pub struct PyScan {
    pub imports: Seq<Seq<char>>,
    pub cleaned: Seq<char>,
    pub in_multiline: bool,
    pub buffer: Seq<char>,
}

/// What the patterns say of a line.
pub struct PyMatches {
    pub import_m: Option<(Option<Seq<char>>, Option<Seq<char>>)>,
    pub from_m: Option<(Option<Seq<char>>, Option<Seq<char>>)>,
    pub continued: bool,
    pub buffered_from_m: Option<(Option<Seq<char>>, Option<Seq<char>>)>,
}

/// The matches of the patterns on a line, in a given state: the trimmed line
/// for the three patterns, and `from ` with the statement collected so far
/// and the trimmed line for the `from` pattern.
pub open spec fn py_matches(st: PyScan, line: Seq<char>) -> PyMatches {
    let t = trim(line);
    PyMatches {
        import_m: regex_groups_of(import_pattern(), t),
        from_m: regex_groups_of(from_pattern(), t),
        continued: regex_groups_of(continued_pattern(), t) is Some,
        buffered_from_m: regex_groups_of(from_pattern(), "from "@ + (st.buffer + t)),
    }
}

/// One line of the scan, given what the patterns say of it.
///
/// Comment lines are kept. Inside a continued statement the trimmed line is
/// collected; when the statement ends its imports are recorded. A line that
/// matches `import` or `from` gives its imports and may start a continued
/// statement. Every other line is kept.
pub open spec fn py_step(st: PyScan, line: Seq<char>, m: PyMatches) -> PyScan {
    let t = trim(line);
    if starts_with(t, "#"@) {
        PyScan { cleaned: st.cleaned + line + "\n"@, ..st }
    } else if st.in_multiline {
        let b = st.buffer + t;
        if m.continued {
            PyScan { buffer: b, ..st }
        } else {
            PyScan {
                imports: st.imports + buffered_imports(b, m.buffered_from_m),
                in_multiline: false,
                buffer: seq![],
                ..st
            }
        }
    } else if m.import_m is Some {
        let imports = st.imports + import_names(m.import_m);
        if m.continued {
            PyScan { imports, in_multiline: true, buffer: t, ..st }
        } else {
            PyScan { imports, ..st }
        }
    } else if m.from_m is Some {
        let imports = st.imports + from_names(m.from_m);
        if m.continued {
            PyScan { imports, in_multiline: true, buffer: t, ..st }
        } else {
            PyScan { imports, ..st }
        }
    } else {
        PyScan { cleaned: st.cleaned + line + "\n"@, ..st }
    }
}

/// The state before any line.
pub open spec fn py_start() -> PyScan {
    PyScan { imports: seq![], cleaned: seq![], in_multiline: false, buffer: seq![] }
}

/// The scan of a sequence of lines.
pub open spec fn py_scan(ls: Seq<Seq<char>>) -> PyScan
    decreases ls.len(),
{
    if ls.len() == 0 {
        py_start()
    } else {
        let st = py_scan(ls.drop_last());
        py_step(st, ls.last(), py_matches(st, ls.last()))
    }
}

/// The state of a scan of Python source.
pub struct PythonScan {
    pub imports: Vec<String>,
    pub cleaned: Vec<char>,
    pub in_multiline_import: bool,
    pub multiline_buffer: Vec<char>,
}

impl PythonScan {
    /// What the state holds.
    pub open spec fn state(&self) -> PyScan {
        PyScan {
            imports: views(self.imports@),
            cleaned: self.cleaned@,
            in_multiline: self.in_multiline_import,
            buffer: self.multiline_buffer@,
        }
    }

    /// The state before any line.
    pub fn new() -> (r: Self)
        ensures
            r.state() == py_start(),
    {
        let r = PythonScan { imports: Vec::new(), cleaned: Vec::new(), in_multiline_import: false, multiline_buffer: Vec::new() };
        assert(views(r.imports@) =~= seq![]);
        r
    }
}

/// What the patterns said of a line.
pub struct PythonLineMatches {
    pub import_groups: Option<(Option<String>, Option<String>)>,
    pub from_groups: Option<(Option<String>, Option<String>)>,
    pub continued: bool,
    pub buffered_from_groups: Option<(Option<String>, Option<String>)>,
}

impl PythonLineMatches {
    /// The matches as values.
    pub open spec fn view_matches(&self) -> PyMatches {
        PyMatches {
            import_m: groups_view(self.import_groups),
            from_m: groups_view(self.from_groups),
            continued: self.continued,
            buffered_from_m: groups_view(self.buffered_from_groups),
        }
    }
}

fn push_listed_names(out: &mut Vec<String>, names: &Vec<char>, prefix: &Vec<char>)
    ensures
        views(final(out)@) == views(old(out)@) + listed_names(split(names@, ","@), prefix@),
{
    let comma = chars_of(",");
    proof {
        reveal_strlit(",");
    }
    let pieces = split_exec(names, &comma);
    let ghost ps = split(names@, ","@);
    let mut i: usize = 0;
    while i < pieces.len()
        invariant
            i <= pieces.len(),
            ps == split(names@, ","@),
            pieces@.len() == ps.len(),
            forall|k: int| 0 <= k < pieces@.len() ==> #[trigger] pieces@[k]@ == ps[k],
            views(out@) == views(old(out)@) + listed_names(ps.take(i as int), prefix@),
        decreases pieces.len() - i,
    {
        assert(ps.take(i + 1).drop_last() =~= ps.take(i as int));
        assert(ps.take(i + 1).last() == pieces@[i as int]@);
        let t = trim_exec(&pieces[i]);
        let b = before_str(&t, " as ");
        let c = trim_exec(&b);
        if c.len() > 0 {
            let mut full = slice_all(prefix);
            append_chars(&mut full, &c);
            let ghost o = out@;
            out.push(string_of(&full));
            assert(views(out@) =~= views(o).push(full@));
        } else {
            assert(views(out@) =~= views(old(out)@) + listed_names(ps.take(i + 1), prefix@));
        }
        i += 1;
    }
    assert(ps.take(pieces.len() as int) =~= ps);
}

fn slice_all(v: &Vec<char>) -> (r: Vec<char>)
    ensures
        r@ == v@,
{
    let mut r: Vec<char> = Vec::new();
    append_chars(&mut r, v);
    r
}

fn push_import_names(out: &mut Vec<String>, g: &Option<(Option<String>, Option<String>)>)
    ensures
        views(final(out)@) == views(old(out)@) + import_names(groups_view(*g)),
{
    match g {
        Some((Some(names), _)) => {
            let n = chars_of(names.as_str());
            let empty: Vec<char> = Vec::new();
            push_listed_names(out, &n, &empty);
            assert(empty@ =~= seq![]);
        },
        _ => {
            assert(views(out@) =~= views(old(out)@) + import_names(groups_view(*g)));
        },
    }
}

fn push_from_names(out: &mut Vec<String>, g: &Option<(Option<String>, Option<String>)>)
    ensures
        views(final(out)@) == views(old(out)@) + from_names(groups_view(*g)),
{
    match g {
        Some((Some(module), Some(names))) => {
            let m = chars_of(module.as_str());
            let mut prefix = trim_exec(&m);
            append_str(&mut prefix, ".");
            let n = chars_of(names.as_str());
            push_listed_names(out, &n, &prefix);
        },
        _ => {
            assert(views(out@) =~= views(old(out)@) + from_names(groups_view(*g)));
        },
    }
}

fn push_trimmed_pieces(out: &mut Vec<String>, s: &Vec<char>)
    ensures
        views(final(out)@) == views(old(out)@) + trimmed_pieces(split(s@, ","@)),
{
    let comma = chars_of(",");
    proof {
        reveal_strlit(",");
    }
    let pieces = split_exec(s, &comma);
    let ghost ps = split(s@, ","@);
    let mut i: usize = 0;
    while i < pieces.len()
        invariant
            i <= pieces.len(),
            ps == split(s@, ","@),
            pieces@.len() == ps.len(),
            forall|k: int| 0 <= k < pieces@.len() ==> #[trigger] pieces@[k]@ == ps[k],
            views(out@) == views(old(out)@) + trimmed_pieces(ps.take(i as int)),
        decreases pieces.len() - i,
    {
        assert(ps.take(i + 1).drop_last() =~= ps.take(i as int));
        assert(ps.take(i + 1).last() == pieces@[i as int]@);
        let t = trim_exec(&pieces[i]);
        let ghost o = out@;
        out.push(string_of(&t));
        assert(views(out@) =~= views(o).push(t@));
        i += 1;
    }
    assert(ps.take(pieces.len() as int) =~= ps);
}

fn push_buffered_imports(out: &mut Vec<String>, b: &Vec<char>, from_g: &Option<(Option<String>, Option<String>)>)
    ensures
        views(final(out)@) == views(old(out)@) + buffered_imports(b@, groups_view(*from_g)),
{
    if has_prefix_str(b, "import ") {
        let p = chars_of("import ");
        let s1 = trim_start_matches_exec(b, &p);
        let s2 = replace_str(&s1, "\\", "");
        let s3 = trim_exec(&s2);
        push_trimmed_pieces(out, &s3);
    } else if contains_str(b, " import ") {
        push_from_names(out, from_g);
    } else {
        assert(views(out@) =~= views(old(out)@) + buffered_imports(b@, groups_view(*from_g)));
    }
}

/// One line of the scan, given what the patterns said of it.
pub fn python_line(scan: &mut PythonScan, line: &Vec<char>, m: &PythonLineMatches)
    ensures
        final(scan).state() == py_step(old(scan).state(), line@, m.view_matches()),
{
    let t = trim_exec(line);
    if has_prefix_str(&t, "#") {
        append_chars(&mut scan.cleaned, line);
        append_str(&mut scan.cleaned, "\n");
    } else if scan.in_multiline_import {
        append_chars(&mut scan.multiline_buffer, &t);
        if !m.continued {
            scan.in_multiline_import = false;
            push_buffered_imports(&mut scan.imports, &scan.multiline_buffer, &m.buffered_from_groups);
            scan.multiline_buffer = Vec::new();
            assert(scan.multiline_buffer@ =~= seq![]);
        }
    } else if m.import_groups.is_some() {
        push_import_names(&mut scan.imports, &m.import_groups);
        if m.continued {
            scan.in_multiline_import = true;
            scan.multiline_buffer = t;
        }
    } else if m.from_groups.is_some() {
        push_from_names(&mut scan.imports, &m.from_groups);
        if m.continued {
            scan.in_multiline_import = true;
            scan.multiline_buffer = t;
        }
    } else {
        append_chars(&mut scan.cleaned, line);
        append_str(&mut scan.cleaned, "\n");
    }
}

/// The matches of the three patterns on a line, in the given state.
fn line_matches(scan: &PythonScan, line: &Vec<char>) -> (m: PythonLineMatches)
    ensures
        m.view_matches() == py_matches(scan.state(), line@),
{
    let t = trim_exec(line);
    let ts = string_of(&t);
    let import_groups = regex_groups(r"^\s*import\s+(.+)$", ts.as_str());
    let from_groups = regex_groups(r"^\s*from\s+([.\w_]+)\s+import\s+(.+)$", ts.as_str());
    let cont_groups = regex_groups(r".*\\\s*$", ts.as_str());
    let continued = cont_groups.is_some();
    assert(continued == (regex_groups_of(continued_pattern(), t@) is Some));
    let mut b = chars_of("from ");
    append_chars(&mut b, &scan.multiline_buffer);
    append_chars(&mut b, &t);
    let bs = string_of(&b);
    assert(b@ =~= "from "@ + (scan.multiline_buffer@ + t@));
    let buffered_from_groups = regex_groups(r"^\s*from\s+([.\w_]+)\s+import\s+(.+)$", bs.as_str());
    PythonLineMatches { import_groups, from_groups, continued, buffered_from_groups }
}

/// The imports of a Python source and the source without its import lines.
///
/// `import a, b as c` gives `a` and `b`; `from m import x, y as z` gives
/// `m.x` and `m.y`; a statement continued with a backslash is collected up to
/// its last line. Comment lines and lines that import nothing are kept, each
/// followed by a newline.
pub fn python_imports(file_content: &str) -> (res: (Vec<String>, String))
    ensures
        views(res.0@) == py_scan(lines(file_content@)).imports,
        res.1@ == py_scan(lines(file_content@)).cleaned,
{
    let content = chars_of(file_content);
    let ls = lines_exec(&content);
    let ghost lsv = lines(file_content@);
    let mut scan = PythonScan::new();
    let mut i: usize = 0;
    while i < ls.len()
        invariant
            i <= ls.len(),
            lsv == lines(file_content@),
            ls@.len() == lsv.len(),
            forall|k: int| 0 <= k < ls@.len() ==> #[trigger] ls@[k]@ == lsv[k],
            scan.state() == py_scan(lsv.take(i as int)),
        decreases ls.len() - i,
    {
        assert(lsv.take(i + 1).drop_last() =~= lsv.take(i as int));
        assert(lsv.take(i + 1).last() == ls@[i as int]@);
        let m = line_matches(&scan, &ls[i]);
        python_line(&mut scan, &ls[i], &m);
        i += 1;
    }
    assert(lsv.take(ls.len() as int) =~= lsv);
    (scan.imports, string_of(&scan.cleaned))
}

} // verus!
