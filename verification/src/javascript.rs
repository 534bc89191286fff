//! Import statements of JavaScript and TypeScript sources.
//!
//! Each line is matched against five regular expressions (default, named,
//! namespace, side-effect and dynamic imports); what a match yields is named
//! by `regex_groups_of`, and everything done with the groups is stated here.
use vstd::prelude::*;
use crate::imports::views;
use crate::pattern::{groups_view, regex_groups, regex_groups_of};
use crate::text::{
    append_chars, append_str, before, before_str, chars_of, contains, contains_str, has_prefix_str,
    lines, lines_exec, second_piece, second_piece_str, split, split_exec, starts_with, string_of,
    trim, trim_exec,
};

verus! {

/// `import Name from 'module'`.
pub open spec fn default_pattern() -> Seq<char> {
    r#"import\s+([A-Za-z0-9_$]+)\s+from\s+['"]([^'"]+)['"]"#@
}

/// `import { a, b as c } from 'module'`.
pub open spec fn named_pattern() -> Seq<char> {
    r#"import\s+\{\s*([^}]+)\s*\}\s+from\s+['"]([^'"]+)['"]"#@
}

/// `import * as name from 'module'`.
pub open spec fn namespace_pattern() -> Seq<char> {
    r#"import\s+\*\s+as\s+([A-Za-z0-9_$]+)\s+from\s+['"]([^'"]+)['"]"#@
}

/// `import 'module'`.
pub open spec fn side_effect_pattern() -> Seq<char> {
    r#"import\s+['"]([^'"]+)['"]"#@
}

/// `import('module')`.
pub open spec fn dynamic_pattern() -> Seq<char> {
    r#"import\s*\(\s*['"]([^'"]+)['"]"#@
}

/// What the five patterns say of a line.
pub struct JsMatches {
    pub default_m: Option<(Option<Seq<char>>, Option<Seq<char>>)>,
    pub named_m: Option<(Option<Seq<char>>, Option<Seq<char>>)>,
    pub namespace_m: Option<(Option<Seq<char>>, Option<Seq<char>>)>,
    pub side_effect_m: Option<(Option<Seq<char>>, Option<Seq<char>>)>,
    pub dynamic_m: Option<(Option<Seq<char>>, Option<Seq<char>>)>,
}

/// The matches of the five patterns on the trimmed line.
pub open spec fn js_matches(line: Seq<char>) -> JsMatches {
    let t = trim(line);
    JsMatches {
        default_m: regex_groups_of(default_pattern(), t),
        named_m: regex_groups_of(named_pattern(), t),
        namespace_m: regex_groups_of(namespace_pattern(), t),
        side_effect_m: regex_groups_of(side_effect_pattern(), t),
        dynamic_m: regex_groups_of(dynamic_pattern(), t),
    }
}

/// `original:alias from module` for each entry of a named-import list with a
/// non-empty name; the alias is the name itself when there is none.
pub open spec fn named_entries(pieces: Seq<Seq<char>>, module: Seq<char>) -> Seq<Seq<char>>
    decreases pieces.len(),
{
    if pieces.len() == 0 {
        seq![]
    } else {
        let t = trim(pieces.last());
        let original = trim(before(t, " as "@));
        let alias = match second_piece(t, " as "@) {
            Some(a) => trim(a),
            None => original,
        };
        named_entries(pieces.drop_last(), module) + if original.len() > 0 {
            seq![original + ":"@ + alias + " from "@ + module]
        } else {
            seq![]
        }
    }
}

/// A two-group match with both groups, written `tag name from module`.
pub open spec fn pair_entry(tag: Seq<char>, g: Option<(Option<Seq<char>>, Option<Seq<char>>)>) -> Seq<Seq<char>> {
    match g {
        Some((Some(a), Some(b))) => seq![tag + a + " from "@ + b],
        _ => seq![],
    }
}

/// A one-group match, written `tag module`.
pub open spec fn single_entry(tag: Seq<char>, g: Option<(Option<Seq<char>>, Option<Seq<char>>)>) -> Seq<Seq<char>> {
    match g {
        Some((Some(a), _)) => seq![tag + a],
        _ => seq![],
    }
}

/// The side-effect pattern counts only on a line without ` from `.
pub open spec fn side_effect_counts(t: Seq<char>, m: JsMatches) -> bool {
    m.side_effect_m is Some && !contains(t, " from "@)
}

/// The imports that a line gives, in the order the patterns are tried.
pub open spec fn js_line_imports(t: Seq<char>, m: JsMatches) -> Seq<Seq<char>> {
    pair_entry("default:"@, m.default_m)
        + match m.named_m {
            Some((Some(names), Some(module))) => named_entries(split(names, ","@), module),
            _ => seq![],
        }
        + pair_entry("*:"@, m.namespace_m)
        + (if side_effect_counts(t, m) { single_entry("side-effect:"@, m.side_effect_m) } else { seq![] })
        + single_entry("dynamic:"@, m.dynamic_m)
}

/// Whether any pattern counts on the line.
pub open spec fn js_is_import(t: Seq<char>, m: JsMatches) -> bool {
    m.default_m is Some || m.named_m is Some || m.namespace_m is Some || side_effect_counts(t, m)
        || m.dynamic_m is Some
}

/// The state of a scan: imports found, lines kept, inside a block comment,
/// and whether an import line has been seen (no line is kept after one).
pub struct JsScan {
    pub imports: Seq<Seq<char>>,
    pub cleaned: Seq<char>,
    pub in_comment: bool,
    pub skip_rest: bool,
}

/// One line of the scan, given what the patterns say of it.
///
/// Lines inside a block comment are dropped; `//` comments are kept; a line
/// that opens a block comment without closing it is dropped. Otherwise the
/// line's imports are recorded, and it is kept only if it imports nothing and
/// no import line came before it.
pub open spec fn js_step(st: JsScan, line: Seq<char>, m: JsMatches) -> JsScan {
    let t = trim(line);
    if st.in_comment {
        if contains(t, "*/"@) { JsScan { in_comment: false, ..st } } else { st }
    } else if starts_with(t, "//"@) {
        JsScan { cleaned: st.cleaned + line + "\n"@, ..st }
    } else if contains(t, "/*"@) && !contains(t, "*/"@) {
        JsScan { in_comment: true, ..st }
    } else {
        let imports = st.imports + js_line_imports(t, m);
        if !js_is_import(t, m) && !st.skip_rest {
            JsScan { imports, cleaned: st.cleaned + line + "\n"@, ..st }
        } else {
            JsScan { imports, skip_rest: true, ..st }
        }
    }
}

/// The state before any line.
pub open spec fn js_start() -> JsScan {
    JsScan { imports: seq![], cleaned: seq![], in_comment: false, skip_rest: false }
}

/// The scan of a sequence of lines.
pub open spec fn js_scan(ls: Seq<Seq<char>>) -> JsScan
    decreases ls.len(),
{
    if ls.len() == 0 {
        js_start()
    } else {
        js_step(js_scan(ls.drop_last()), ls.last(), js_matches(ls.last()))
    }
}

/// The state of a scan of JavaScript source.
pub struct JavascriptScan {
    pub imports: Vec<String>,
    pub cleaned: Vec<char>,
    pub in_multiline_comment: bool,
    pub skip_line: bool,
}

impl JavascriptScan {
    /// What the state holds.
    pub open spec fn state(&self) -> JsScan {
        JsScan {
            imports: views(self.imports@),
            cleaned: self.cleaned@,
            in_comment: self.in_multiline_comment,
            skip_rest: self.skip_line,
        }
    }

    /// The state before any line.
    pub fn new() -> (r: Self)
        ensures
            r.state() == js_start(),
    {
        let r = JavascriptScan { imports: Vec::new(), cleaned: Vec::new(), in_multiline_comment: false, skip_line: false };
        assert(views(r.imports@) =~= seq![]);
        r
    }
}

/// What the five patterns said of a line.
pub struct JavascriptLineMatches {
    pub default_groups: Option<(Option<String>, Option<String>)>,
    pub named_groups: Option<(Option<String>, Option<String>)>,
    pub namespace_groups: Option<(Option<String>, Option<String>)>,
    pub side_effect_groups: Option<(Option<String>, Option<String>)>,
    pub dynamic_groups: Option<(Option<String>, Option<String>)>,
}

impl JavascriptLineMatches {
    /// The matches as values.
    pub open spec fn view_matches(&self) -> JsMatches {
        JsMatches {
            default_m: groups_view(self.default_groups),
            named_m: groups_view(self.named_groups),
            namespace_m: groups_view(self.namespace_groups),
            side_effect_m: groups_view(self.side_effect_groups),
            dynamic_m: groups_view(self.dynamic_groups),
        }
    }
}

fn push_named_entries(out: &mut Vec<String>, names: &Vec<char>, module: &Vec<char>)
    ensures
        views(final(out)@) == views(old(out)@) + named_entries(split(names@, ","@), module@),
{
    let comma = chars_of(",");
    proof {
        reveal_strlit(",");
    }
    let pieces = split_exec(names, &comma);
    let ghost ps = split(names@, ","@);
    let mut i: usize = 0;
    while i < pieces.len()
        invariant
            i <= pieces.len(),
            ps == split(names@, ","@),
            pieces@.len() == ps.len(),
            forall|k: int| 0 <= k < pieces@.len() ==> #[trigger] pieces@[k]@ == ps[k],
            views(out@) == views(old(out)@) + named_entries(ps.take(i as int), module@),
        decreases pieces.len() - i,
    {
        assert(ps.take(i + 1).drop_last() =~= ps.take(i as int));
        assert(ps.take(i + 1).last() == pieces@[i as int]@);
        let t = trim_exec(&pieces[i]);
        let b = before_str(&t, " as ");
        let original = trim_exec(&b);
        let alias = match second_piece_str(&t, " as ") {
            Some(a) => trim_exec(&a),
            None => trim_exec(&b),
        };
        if original.len() > 0 {
            let mut e = trim_exec(&b);
            append_str(&mut e, ":");
            append_chars(&mut e, &alias);
            append_str(&mut e, " from ");
            append_chars(&mut e, module);
            let ghost o = out@;
            out.push(string_of(&e));
            assert(views(out@) =~= views(o).push(e@));
        } else {
            assert(views(out@) =~= views(old(out)@) + named_entries(ps.take(i + 1), module@));
        }
        i += 1;
    }
    assert(ps.take(pieces.len() as int) =~= ps);
}

fn push_pair_entry(out: &mut Vec<String>, tag: &str, g: &Option<(Option<String>, Option<String>)>)
    ensures
        views(final(out)@) == views(old(out)@) + pair_entry(tag@, groups_view(*g)),
{
    match g {
        Some((Some(a), Some(b))) => {
            let mut e = chars_of(tag);
            append_str(&mut e, a.as_str());
            append_str(&mut e, " from ");
            append_str(&mut e, b.as_str());
            let ghost o = out@;
            out.push(string_of(&e));
            assert(views(out@) =~= views(o).push(e@));
        },
        _ => {
            assert(views(out@) =~= views(old(out)@) + pair_entry(tag@, groups_view(*g)));
        },
    }
}

fn push_single_entry(out: &mut Vec<String>, tag: &str, g: &Option<(Option<String>, Option<String>)>)
    ensures
        views(final(out)@) == views(old(out)@) + single_entry(tag@, groups_view(*g)),
{
    match g {
        Some((Some(a), _)) => {
            let mut e = chars_of(tag);
            append_str(&mut e, a.as_str());
            let ghost o = out@;
            out.push(string_of(&e));
            assert(views(out@) =~= views(o).push(e@));
        },
        _ => {
            assert(views(out@) =~= views(old(out)@) + single_entry(tag@, groups_view(*g)));
        },
    }
}

/// One line of the scan, given what the patterns said of it.
pub fn javascript_line(scan: &mut JavascriptScan, line: &Vec<char>, m: &JavascriptLineMatches)
    ensures
        final(scan).state() == js_step(old(scan).state(), line@, m.view_matches()),
{
    let t = trim_exec(line);
    if scan.in_multiline_comment {
        if contains_str(&t, "*/") {
            scan.in_multiline_comment = false;
        }
    } else if has_prefix_str(&t, "//") {
        append_chars(&mut scan.cleaned, line);
        append_str(&mut scan.cleaned, "\n");
    } else if contains_str(&t, "/*") && !contains_str(&t, "*/") {
        scan.in_multiline_comment = true;
    } else {
        let ghost i0 = views(scan.imports@);
        let ghost mv = m.view_matches();
        push_pair_entry(&mut scan.imports, "default:", &m.default_groups);
        match &m.named_groups {
            Some((Some(names), Some(module))) => {
                let n = chars_of(names.as_str());
                let mo = chars_of(module.as_str());
                push_named_entries(&mut scan.imports, &n, &mo);
            },
            _ => {},
        }
        push_pair_entry(&mut scan.imports, "*:", &m.namespace_groups);
        let side = m.side_effect_groups.is_some() && !contains_str(&t, " from ");
        if side {
            push_single_entry(&mut scan.imports, "side-effect:", &m.side_effect_groups);
        }
        push_single_entry(&mut scan.imports, "dynamic:", &m.dynamic_groups);
        assert(views(scan.imports@) =~= i0 + js_line_imports(t@, mv));
        let is_import = m.default_groups.is_some() || m.named_groups.is_some()
            || m.namespace_groups.is_some() || side || m.dynamic_groups.is_some();
        if !is_import && !scan.skip_line {
            append_chars(&mut scan.cleaned, line);
            append_str(&mut scan.cleaned, "\n");
        } else {
            scan.skip_line = true;
        }
    }
}

/// The matches of the five patterns on a trimmed line.
fn line_matches(line: &Vec<char>) -> (m: JavascriptLineMatches)
    ensures
        m.view_matches() == js_matches(line@),
{
    let t = trim_exec(line);
    let ts = string_of(&t);
    let default_groups = regex_groups(r#"import\s+([A-Za-z0-9_$]+)\s+from\s+['"]([^'"]+)['"]"#, ts.as_str());
    let named_groups = regex_groups(r#"import\s+\{\s*([^}]+)\s*\}\s+from\s+['"]([^'"]+)['"]"#, ts.as_str());
    let namespace_groups = regex_groups(r#"import\s+\*\s+as\s+([A-Za-z0-9_$]+)\s+from\s+['"]([^'"]+)['"]"#, ts.as_str());
    let side_effect_groups = regex_groups(r#"import\s+['"]([^'"]+)['"]"#, ts.as_str());
    let dynamic_groups = regex_groups(r#"import\s*\(\s*['"]([^'"]+)['"]"#, ts.as_str());
    JavascriptLineMatches { default_groups, named_groups, namespace_groups, side_effect_groups, dynamic_groups }
}

/// The imports of a JavaScript or TypeScript source and the source without
/// its import lines.
///
/// Imports are written `default:Name from m`, `name:alias from m`,
/// `*:ns from m`, `side-effect:m` and `dynamic:m`. Lines inside block
/// comments are dropped; `//` comments are kept; no line after the first
/// import line is kept.
pub fn javascript_imports(file_content: &str) -> (res: (Vec<String>, String))
    ensures
        views(res.0@) == js_scan(lines(file_content@)).imports,
        res.1@ == js_scan(lines(file_content@)).cleaned,
{
    let content = chars_of(file_content);
    let ls = lines_exec(&content);
    let ghost lsv = lines(file_content@);
    let mut scan = JavascriptScan::new();
    let mut i: usize = 0;
    while i < ls.len()
        invariant
            i <= ls.len(),
            lsv == lines(file_content@),
            ls@.len() == lsv.len(),
            forall|k: int| 0 <= k < ls@.len() ==> #[trigger] ls@[k]@ == lsv[k],
            scan.state() == js_scan(lsv.take(i as int)),
        decreases ls.len() - i,
    {
        assert(lsv.take(i + 1).drop_last() =~= lsv.take(i as int));
        assert(lsv.take(i + 1).last() == ls@[i as int]@);
        let m = line_matches(&ls[i]);
        javascript_line(&mut scan, &ls[i], &m);
        i += 1;
    }
    assert(lsv.take(ls.len() as int) =~= lsv);
    (scan.imports, string_of(&scan.cleaned))
}

} // verus!
