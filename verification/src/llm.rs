//! What the library asks language models and how it reads their answers:
//! which model a provider stands for, the prompt
//! that carries the summary schema, the messages of each attempt at a YAML
//! summary, and the YAML taken out of an answer.
use vstd::prelude::*;
use crate::html::{escape_html, escape_html_spec};
use crate::text::{
    append_chars, append_str, chars_of, contains, contains_str, decimal, decimal_exec, eq_str,
    has_prefix_str, join, lines, lines_exec, replace, replace_str, starts_with, string_of, trim,
    trim_exec,
};

verus! {

// ------------------------------------------------------------------------
// Providers
// ------------------------------------------------------------------------
/// The lowercase form of a text, as `str::to_lowercase` computes it.
pub uninterp spec fn lowercase(s: Seq<char>) -> Seq<char>;

/// `str::to_lowercase`. The contract names the result only.
#[verifier::external_body]
pub(crate) fn to_lowercase(s: &str) -> (r: String)
    ensures
        r@ == lowercase(s@),
{
    s.to_lowercase()
}

/// The model families the library talks to.
pub enum LlmKind {
    OpenAI,
    Anthropic,
    Gemini,
}

/// The family a provider name stands for, ignoring case; Gemini for any
/// name it does not know.
pub open spec fn kind_of(provider: Seq<char>) -> LlmKind {
    let p = lowercase(provider);
    if p == "openai"@ {
        LlmKind::OpenAI
    } else if p == "anthropic"@ {
        LlmKind::Anthropic
    } else {
        LlmKind::Gemini
    }
}

/// The family a provider name stands for.
pub fn provider_kind(provider: &str) -> (r: LlmKind)
    ensures
        r == kind_of(provider@),
{
    let p = chars_of(to_lowercase(provider).as_str());
    if eq_str(&p, "openai") {
        LlmKind::OpenAI
    } else if eq_str(&p, "anthropic") {
        LlmKind::Anthropic
    } else {
        LlmKind::Gemini
    }
}

// ------------------------------------------------------------------------
// The summary schema in the prompt
// ------------------------------------------------------------------------
/// `{` counted up, `}` counted down.
pub open spec fn braces(s: Seq<char>) -> int
    decreases s.len(),
{
    if s.len() == 0 {
        0
    } else {
        braces(s.drop_last()) + if s.last() == '{' {
            1
        } else if s.last() == '}' {
            -1
        } else {
            0
        }
    }
}

proof fn lemma_braces_bound(s: Seq<char>)
    ensures
        -(s.len() as int) <= braces(s) <= s.len(),
    decreases s.len(),
{
    if s.len() > 0 {
        lemma_braces_bound(s.drop_last());
    }
}

proof fn lemma_braces_concat(a: Seq<char>, b: Seq<char>)
    ensures
        braces(a + b) == braces(a) + braces(b),
    decreases b.len(),
{
    if b.len() > 0 {
        lemma_braces_concat(a, b.drop_last());
        assert((a + b).drop_last() =~= a + b.drop_last());
    } else {
        assert(a + b =~= a);
    }
}

/// A `pub struct` line of one of the summary's types.
pub open spec fn names_summary_type(t: Seq<char>) -> bool {
    contains(t, "FileYamlData"@) || contains(t, "Function"@) || contains(t, "Parameter"@)
        || contains(t, "Class"@) || contains(t, "DataStructure"@)
}

/// Where the scan of the schema source stands.
pub enum ScanMode {
    /// Outside any type.
    Scan,
    /// In the attributes before a type, collected so far.
    Header(Seq<char>),
    /// In the body of a wanted type, collected so far, with the braces
    /// still open.
    Body(Seq<char>, int),
}

/// A line met outside any type: a `#[derive(` line starts a type's header.
pub open spec fn scan_outside(out: Seq<char>, line: Seq<char>) -> (ScanMode, Seq<char>) {
    if starts_with(trim(line), "#[derive("@) {
        (ScanMode::Header(line + "\n"@), out)
    } else {
        (ScanMode::Scan, out)
    }
}

/// A wanted type's text is complete once its braces close.
pub open spec fn after_line(buf: Seq<char>, out: Seq<char>) -> (ScanMode, Seq<char>) {
    if braces(buf) > 0 {
        (ScanMode::Body(buf, braces(buf)), out)
    } else {
        (ScanMode::Scan, out + buf + "\n"@)
    }
}

/// One line of the scan: attribute lines join a header; the `pub struct`
/// line of a wanted type starts its body, which runs until its braces
/// close; any other line ends a header and is looked at again outside.
pub open spec fn scan_step(st: (ScanMode, Seq<char>), line: Seq<char>) -> (ScanMode, Seq<char>) {
    let out = st.1;
    match st.0 {
        ScanMode::Scan => scan_outside(out, line),
        ScanMode::Header(buf) => {
            let t = trim(line);
            if starts_with(t, "#["@) {
                (ScanMode::Header(buf + line + "\n"@), out)
            } else if starts_with(t, "pub struct"@) {
                if names_summary_type(t) {
                    after_line(buf + line + "\n"@, out)
                } else {
                    (ScanMode::Scan, out)
                }
            } else {
                scan_outside(out, line)
            }
        },
        ScanMode::Body(buf, _) => after_line(buf + line + "\n"@, out),
    }
}

/// The scan of a sequence of lines.
pub open spec fn scan_lines(ls: Seq<Seq<char>>) -> (ScanMode, Seq<char>)
    decreases ls.len(),
{
    if ls.len() == 0 {
        (ScanMode::Scan, seq![])
    } else {
        scan_step(scan_lines(ls.drop_last()), ls.last())
    }
}

/// The definitions of the summary's types (`FileYamlData`, `Function`,
/// `Parameter`, `Class`, `DataStructure`) in a source file, each with its
/// attributes and followed by an empty line; a definition cut off by the end
/// of the file is kept as far as it goes.
pub open spec fn summary_type_definitions(source: Seq<char>) -> Seq<char> {
    let st = scan_lines(lines(source));
    match st.0 {
        ScanMode::Body(buf, _) => st.1 + buf + "\n"@,
        _ => st.1,
    }
}

fn braces_exec(s: &Vec<char>) -> (r: i128)
    requires
        s@.len() <= usize::MAX,
    ensures
        r == braces(s@),
{
    let mut c: i128 = 0;
    let mut i: usize = 0;
    while i < s.len()
        invariant
            i <= s.len(),
            s@.len() <= usize::MAX,
            c == braces(s@.take(i as int)),
        decreases s.len() - i,
    {
        proof {
            lemma_braces_bound(s@.take(i as int));
        }
        assert(s@.take(i + 1).drop_last() =~= s@.take(i as int));
        if s[i] == '{' {
            c = c + 1;
        } else if s[i] == '}' {
            c = c - 1;
        }
        i += 1;
    }
    assert(s@.take(s.len() as int) =~= s@);
    c
}

/// The exec form of a scan state: the mode, its buffer, the open braces.
struct Scanner {
    mode: u8,
    buf: Vec<char>,
    count: i128,
    out: Vec<char>,
}

impl Scanner {
    spec fn state(&self) -> (ScanMode, Seq<char>) {
        if self.mode == 0 {
            (ScanMode::Scan, self.out@)
        } else if self.mode == 1 {
            (ScanMode::Header(self.buf@), self.out@)
        } else {
            (ScanMode::Body(self.buf@, self.count as int), self.out@)
        }
    }

    spec fn wf(&self) -> bool {
        self.mode <= 2 && (self.mode == 2 ==> self.count == braces(self.buf@))
    }

    fn outside(&mut self, line: &Vec<char>)
        ensures
            final(self).wf(),
            final(self).state() == scan_outside(old(self).out@, line@),
    {
        let t = trim_exec(line);
        if has_prefix_str(&t, "#[derive(") {
            let mut b: Vec<char> = Vec::new();
            append_chars(&mut b, line);
            append_str(&mut b, "\n");
            self.buf = b;
            self.mode = 1;
        } else {
            self.mode = 0;
        }
    }

    fn after(&mut self, buf: Vec<char>)
        ensures
            final(self).wf(),
            final(self).state() == after_line(buf@, old(self).out@),
    {
        let n = buf.len();
        let c = braces_exec(&buf);
        if c > 0 {
            self.buf = buf;
            self.count = c;
            self.mode = 2;
        } else {
            append_chars(&mut self.out, &buf);
            append_str(&mut self.out, "\n");
            self.mode = 0;
        }
    }

    fn step(&mut self, line: &Vec<char>)
        requires
            old(self).wf(),
        ensures
            final(self).wf(),
            final(self).state() == scan_step(old(self).state(), line@),
    {
        if self.mode == 0 {
            self.outside(line);
        } else if self.mode == 1 {
            let t = trim_exec(line);
            if has_prefix_str(&t, "#[") {
                append_chars(&mut self.buf, line);
                append_str(&mut self.buf, "\n");
            } else if has_prefix_str(&t, "pub struct") {
                let wanted = contains_str(&t, "FileYamlData") || contains_str(&t, "Function")
                    || contains_str(&t, "Parameter") || contains_str(&t, "Class")
                    || contains_str(&t, "DataStructure");
                if wanted {
                    let mut b: Vec<char> = Vec::new();
                    append_chars(&mut b, &self.buf);
                    append_chars(&mut b, line);
                    append_str(&mut b, "\n");
                    self.after(b);
                } else {
                    self.mode = 0;
                }
            } else {
                self.outside(line);
            }
        } else {
            let mut b: Vec<char> = Vec::new();
            append_chars(&mut b, &self.buf);
            append_chars(&mut b, line);
            append_str(&mut b, "\n");
            self.after(b);
        }
    }
}

/// The definitions of the summary's types in a source file.
pub fn extract_summary_types(source: &str) -> (r: String)
    ensures
        r@ == summary_type_definitions(source@),
{
    let sv = chars_of(source);
    let ls = lines_exec(&sv);
    let ghost lsv = lines(source@);
    let mut sc = Scanner { mode: 0, buf: Vec::new(), count: 0, out: Vec::new() };
    assert(sc.out@ =~= seq![]);
    let mut i: usize = 0;
    while i < ls.len()
        invariant
            i <= ls.len(),
            lsv == lines(source@),
            ls@.len() == lsv.len(),
            forall|k: int| 0 <= k < ls@.len() ==> #[trigger] ls@[k]@ == lsv[k],
            sc.wf(),
            sc.state() == scan_lines(lsv.take(i as int)),
        decreases ls.len() - i,
    {
        assert(lsv.take(i + 1).drop_last() =~= lsv.take(i as int));
        assert(lsv.take(i + 1).last() == ls@[i as int]@);
        sc.step(&ls[i]);
        i += 1;
    }
    assert(lsv.take(ls.len() as int) =~= lsv);
    if sc.mode == 2 {
        append_chars(&mut sc.out, &sc.buf);
        append_str(&mut sc.out, "\n");
    }
    string_of(&sc.out)
}

/// The summary prompt with the definitions of the summary's types put in
/// place of `ReplaceWithStructCode`.
pub open spec fn prompt_with_structs_text(template: Seq<char>, source: Seq<char>) -> Seq<char> {
    replace(template, "ReplaceWithStructCode"@, summary_type_definitions(source))
}

// ------------------------------------------------------------------------
// YAML summaries
// ------------------------------------------------------------------------
/// A line that opens or closes a code fence for YAML.
pub open spec fn is_fence(line: Seq<char>) -> bool {
    let t = trim(line);
    t == "```"@ || t == "```yaml"@ || t == "```yml"@
}

/// The index of the first fence line from `i` on.
pub open spec fn first_fence(ls: Seq<Seq<char>>, i: int) -> Option<int>
    decreases ls.len() - i,
{
    if i < 0 || i >= ls.len() {
        None
    } else if is_fence(ls[i]) {
        Some(i)
    } else {
        first_fence(ls, i + 1)
    }
}

/// The index of the last fence line before `n`.
pub open spec fn last_fence(ls: Seq<Seq<char>>, n: int) -> Option<int>
    decreases n,
{
    if n <= 0 || n > ls.len() {
        None
    } else if is_fence(ls[n - 1]) {
        Some(n - 1)
    } else {
        last_fence(ls, n - 1)
    }
}

/// Lines that are left out of the YAML: fences and bare `yaml` / `yml`.
pub open spec fn is_fence_debris(line: Seq<char>) -> bool {
    let t = trim(line);
    starts_with(t, "```"@) || t == "yaml"@ || t == "yml"@
}

/// The lines that are not fence debris.
pub open spec fn without_debris(ls: Seq<Seq<char>>) -> Seq<Seq<char>>
    decreases ls.len(),
{
    if ls.len() == 0 {
        seq![]
    } else {
        without_debris(ls.drop_last()) + if is_fence_debris(ls.last()) { seq![] } else { seq![ls.last()] }
    }
}

/// The YAML in a model's answer: the lines between the first and the last
/// fence line when there are two fences (all lines otherwise), without fence
/// debris, joined, trimmed.
pub open spec fn answer_yaml(answer: Seq<char>) -> Seq<char> {
    let ls = lines(answer);
    let body = match (first_fence(ls, 0), last_fence(ls, ls.len() as int)) {
        (Some(s), Some(e)) => if s < e { ls.subrange(s + 1, e) } else { ls },
        _ => ls,
    };
    trim(join(without_debris(lines(join(body, "\n"@))), "\n"@))
}

proof fn lemma_first_fence_bounds(ls: Seq<Seq<char>>, i: int)
    ensures
        first_fence(ls, i) matches Some(s) ==> i <= s < ls.len(),
    decreases ls.len() - i,
{
    if 0 <= i < ls.len() && !is_fence(ls[i]) {
        lemma_first_fence_bounds(ls, i + 1);
    }
}

proof fn lemma_last_fence_bounds(ls: Seq<Seq<char>>, n: int)
    ensures
        last_fence(ls, n) matches Some(e) ==> 0 <= e < n,
    decreases n,
{
    if 0 < n <= ls.len() && !is_fence(ls[n - 1]) {
        lemma_last_fence_bounds(ls, n - 1);
    }
}

fn is_fence_exec(line: &Vec<char>) -> (r: bool)
    ensures
        r == is_fence(line@),
{
    let t = trim_exec(line);
    eq_str(&t, "```") || eq_str(&t, "```yaml") || eq_str(&t, "```yml")
}

fn fence_positions(ls: &Vec<Vec<char>>) -> (r: (Option<usize>, Option<usize>))
    ensures
        ({
            let lv = ls@.map_values(|v: Vec<char>| v@);
            &&& r.0 matches Some(s) ==> first_fence(lv, 0) == Some(s as int)
            &&& r.0 is None ==> first_fence(lv, 0) is None
            &&& r.1 matches Some(e) ==> last_fence(lv, lv.len() as int) == Some(e as int)
            &&& r.1 is None ==> last_fence(lv, lv.len() as int) is None
        }),
{
    let ghost lv = ls@.map_values(|v: Vec<char>| v@);
    let mut i: usize = 0;
    let mut first: Option<usize> = None;
    while i < ls.len()
        invariant_except_break
            first is None,
        invariant
            i <= ls.len(),
            lv == ls@.map_values(|v: Vec<char>| v@),
            first_fence(lv, 0) == first_fence(lv, i as int),
        ensures
            (first matches Some(s) ==> first_fence(lv, 0) == Some(s as int)),
            (first is None ==> first_fence(lv, 0) is None),
        decreases ls.len() - i,
    {
        assert(lv[i as int] == ls@[i as int]@);
        if is_fence_exec(&ls[i]) {
            first = Some(i);
            break;
        }
        i += 1;
    }
    let mut n: usize = ls.len();
    let mut last: Option<usize> = None;
    while n > 0
        invariant_except_break
            last is None,
        invariant
            n <= ls.len(),
            lv == ls@.map_values(|v: Vec<char>| v@),
            last_fence(lv, lv.len() as int) == last_fence(lv, n as int),
        ensures
            (last matches Some(e) ==> last_fence(lv, lv.len() as int) == Some(e as int)),
            (last is None ==> last_fence(lv, lv.len() as int) is None),
        decreases n,
    {
        assert(lv[n - 1] == ls@[n - 1]@);
        if is_fence_exec(&ls[n - 1]) {
            last = Some(n - 1);
            break;
        }
        n -= 1;
    }
    (first, last)
}

/// The YAML in a model's answer.
pub fn extract_yaml(answer: &str) -> (r: String)
    ensures
        r@ == answer_yaml(answer@),
{
    let av = chars_of(answer);
    let ls = lines_exec(&av);
    let ghost lv = lines(answer@);
    assert(ls@.map_values(|v: Vec<char>| v@) =~= lv);
    let (first, last) = fence_positions(&ls);
    proof {
        lemma_first_fence_bounds(lv, 0);
        lemma_last_fence_bounds(lv, lv.len() as int);
    }
    let mut body: Vec<Vec<char>> = Vec::new();
    let mut from: usize = 0;
    let mut to: usize = ls.len();
    match (first, last) {
        (Some(s), Some(e)) => {
            if s < e {
                from = s + 1;
                to = e;
            }
        },
        _ => {},
    }
    let mut i: usize = from;
    while i < to
        invariant
            from <= i <= to <= ls.len(),
            body@.map_values(|v: Vec<char>| v@) == ls@.map_values(|v: Vec<char>| v@).subrange(from as int, i as int),
        decreases to - i,
    {
        let ghost before = body@;
        body.push(crate::text::slice(&ls[i], 0, ls[i].len()));
        assert(ls@[i as int]@.subrange(0, ls@[i as int]@.len() as int) =~= ls@[i as int]@);
        assert(body@.map_values(|v: Vec<char>| v@) =~= before.map_values(|v: Vec<char>| v@).push(ls@[i as int]@));
        assert(ls@.map_values(|v: Vec<char>| v@).subrange(from as int, i + 1) =~= ls@.map_values(|v: Vec<char>| v@).subrange(from as int, i as int).push(ls@[i as int]@));
        i += 1;
    }
    let ghost bv = body@.map_values(|v: Vec<char>| v@);
    assert(bv == match (first_fence(lv, 0), last_fence(lv, lv.len() as int)) {
        (Some(s), Some(e)) => if s < e { lv.subrange(s + 1, e) } else { lv },
        _ => lv,
    }) by {
        assert(lv.subrange(0, lv.len() as int) =~= lv);
    }
    let nl = chars_of("\n");
    let joined = crate::text::join_exec(&body, &nl);
    let ls2 = lines_exec(&joined);
    let ghost l2 = lines(joined@);
    let mut kept: Vec<Vec<char>> = Vec::new();
    let mut k: usize = 0;
    while k < ls2.len()
        invariant
            k <= ls2.len(),
            l2 == lines(joined@),
            ls2@.len() == l2.len(),
            forall|q: int| 0 <= q < ls2@.len() ==> #[trigger] ls2@[q]@ == l2[q],
            kept@.map_values(|v: Vec<char>| v@) == without_debris(l2.take(k as int)),
        decreases ls2.len() - k,
    {
        assert(l2.take(k + 1).drop_last() =~= l2.take(k as int));
        assert(l2.take(k + 1).last() == ls2@[k as int]@);
        let t = trim_exec(&ls2[k]);
        let debris = has_prefix_str(&t, "```") || eq_str(&t, "yaml") || eq_str(&t, "yml");
        if !debris {
            let ghost before = kept@;
            kept.push(crate::text::slice(&ls2[k], 0, ls2[k].len()));
            assert(ls2@[k as int]@.subrange(0, ls2@[k as int]@.len() as int) =~= ls2@[k as int]@);
            assert(kept@.map_values(|v: Vec<char>| v@) =~= before.map_values(|v: Vec<char>| v@).push(l2[k as int]));
        }
        k += 1;
    }
    assert(l2.take(ls2.len() as int) =~= l2);
    let j2 = crate::text::join_exec(&kept, &nl);
    string_of(&trim_exec(&j2))
}

/// The feedback sent after an attempt whose YAML did not parse.
pub open spec fn retry_feedback(error: Seq<char>, failed_yaml: Seq<char>) -> Seq<char> {
    "The YAML you previously generated for the *same code* below failed to parse with the following error:\n\n```\n"@
        + error + "\n```\n\nHere was the invalid YAML:\n\n```yaml\n"@ + failed_yaml
        + "\n```\n\nPlease correct the YAML to adhere strictly to the schema and guidelines provided, learning from the parsing error provided. Remember the strict formatting rules. Provide ONLY the corrected YAML block."@
}

/// The model's acknowledgement of that feedback.
pub open spec fn retry_acknowledgement() -> Seq<char> {
    "Understood. I will use this feedback to correct the YAML generation and provide the corrected YAML block now."@
}

/// The messages of one attempt at a YAML summary, as `(role, content)`: the
/// prompt and the model's prepared reply, then (after a failed attempt) the
/// parse error with the failed YAML and an acknowledgement, then the code.
pub open spec fn attempt_messages(
    user_prompt: Seq<char>,
    model_reply: Seq<char>,
    last_failure: Option<(Seq<char>, Seq<char>)>,
    code: Seq<char>,
) -> Seq<(Seq<char>, Seq<char>)> {
    seq![("user"@, user_prompt), ("model"@, model_reply)] + match last_failure {
        Some((e, y)) => seq![("user"@, retry_feedback(e, y)), ("model"@, retry_acknowledgement())],
        None => seq![],
    } + seq![("user"@, "```\n"@ + code + "\n```"@)]
}

/// The views of `(role, content)` pairs.
pub open spec fn message_views(v: Seq<(String, String)>) -> Seq<(Seq<char>, Seq<char>)> {
    v.map_values(|m: (String, String)| (m.0@, m.1@))
}

/// A `(role, content)` message.
fn message(role: &str, content: Vec<char>) -> (m: (String, String))
    ensures
        m.0@ == role@,
        m.1@ == content@,
{
    (string_of(&chars_of(role)), string_of(&content))
}

/// The messages of one attempt at a YAML summary of `code`.
pub fn yaml_attempt_messages(
    user_prompt: &str,
    model_reply: &str,
    last_failure: &Option<(String, String)>,
    code: &str,
) -> (r: Vec<(String, String)>)
    ensures
        message_views(r@) == attempt_messages(
            user_prompt@,
            model_reply@,
            match last_failure {
                Some((e, y)) => Some((e@, y@)),
                None => None,
            },
            code@,
        ),
{
    let mut r: Vec<(String, String)> = Vec::new();
    r.push(message("user", chars_of(user_prompt)));
    r.push(message("model", chars_of(model_reply)));
    match last_failure {
        Some((e, y)) => {
            let mut f = chars_of("The YAML you previously generated for the *same code* below failed to parse with the following error:\n\n```\n");
            append_str(&mut f, e.as_str());
            append_str(&mut f, "\n```\n\nHere was the invalid YAML:\n\n```yaml\n");
            append_str(&mut f, y.as_str());
            append_str(&mut f, "\n```\n\nPlease correct the YAML to adhere strictly to the schema and guidelines provided, learning from the parsing error provided. Remember the strict formatting rules. Provide ONLY the corrected YAML block.");
            r.push(message("user", f));
            r.push(message("model", chars_of("Understood. I will use this feedback to correct the YAML generation and provide the corrected YAML block now.")));
        },
        None => {},
    }
    let mut c = chars_of("```\n");
    append_str(&mut c, code);
    append_str(&mut c, "\n```");
    r.push(message("user", c));
    assert(message_views(r@) =~= attempt_messages(
        user_prompt@,
        model_reply@,
        match last_failure {
            Some((e, y)) => Some((e@, y@)),
            None => None,
        },
        code@,
    ));
    r
}

/// The error after every attempt failed.
pub open spec fn conversion_failure(attempts: nat, file_path: Seq<char>, last_error: Option<Seq<char>>) -> Seq<char> {
    "Failed to generate valid YAML after "@ + decimal(attempts) + " attempts for file '"@ + file_path
        + "'. Last error: "@ + match last_error {
        Some(e) => e,
        None => "Unknown parsing error"@,
    }
}

/// The error after every attempt failed.
pub fn conversion_failure_message(attempts: u8, file_path: &str, last_error: &Option<String>) -> (r: String)
    ensures
        r@ == conversion_failure(attempts as nat, file_path@, match last_error {
            Some(e) => Some(e@),
            None => None,
        }),
{
    let mut m = chars_of("Failed to generate valid YAML after ");
    append_chars(&mut m, &decimal_exec(attempts as usize));
    append_str(&mut m, " attempts for file '");
    append_str(&mut m, file_path);
    append_str(&mut m, "'. Last error: ");
    match last_error {
        Some(e) => append_str(&mut m, e.as_str()),
        None => append_str(&mut m, "Unknown parsing error"),
    }
    string_of(&m)
}

/// How many times a file's summary is asked for.
pub const YAML_MAX_ATTEMPTS: u8 = 3;

/// What to do after an attempt at a file's summary.
pub enum YamlAction {
    /// The summary parsed: use it.
    Done(String),
    /// Ask again, showing the model this error and the YAML that failed.
    Retry(String, String),
    /// Stop with this message.
    GiveUp(String),
}

/// The step after attempt number `attempt` (counting from 1) at the summary
/// of `file_path`, whose outcome is the YAML that parsed or the error and
/// the YAML that did not: a parsed summary is used; a failure is fed back
/// while attempts remain, and after the last attempt ends the conversion
/// with the failure message naming its error.
pub fn yaml_retry_step(attempt: u8, file_path: &str, outcome: Result<String, (String, String)>) -> (a: YamlAction)
    ensures
        match outcome {
            Ok(y) => a matches YamlAction::Done(d) && d@ == y@,
            Err((e, y)) => if attempt < YAML_MAX_ATTEMPTS {
                a matches YamlAction::Retry(e2, y2) && e2@ == e@ && y2@ == y@
            } else {
                a matches YamlAction::GiveUp(m) && m@ == conversion_failure(YAML_MAX_ATTEMPTS as nat, file_path@, Some(e@))
            },
        },
{
    match outcome {
        Ok(y) => YamlAction::Done(y),
        Err((e, y)) => {
            if attempt < YAML_MAX_ATTEMPTS {
                YamlAction::Retry(e, y)
            } else {
                let m = conversion_failure_message(YAML_MAX_ATTEMPTS, file_path, &Some(e));
                YamlAction::GiveUp(m)
            }
        },
    }
}

// ------------------------------------------------------------------------
// Optimizing a query
// ------------------------------------------------------------------------
/// The request to optimize a query: the chat history and the context files
/// when given and not empty, the query, and the direction when given and
/// not empty.
pub open spec fn optimization_prompt_text(
    original: Seq<char>,
    direction: Option<Seq<char>>,
    history: Option<Seq<char>>,
    file_context: Option<Seq<char>>,
) -> Seq<char> {
    "You are an expert query optimization assistant. Your task is to refine user queries. .\n\n"@
        + match history {
        Some(h) => if h.len() > 0 { "Here is the relevant chat conversation history:\n"@ + h + "\n\n"@ } else { seq![] },
        None => seq![],
    } + match file_context {
        Some(f) => if f.len() > 0 { "Here are the contents of the selected context files:\n"@ + f + "\n\n"@ } else { seq![] },
        None => seq![],
    } + "Original prompt to optimize: \""@ + original + "\""@ + match direction {
        Some(d) => if d.len() > 0 { "\nOptimization Direction: \""@ + d + "\""@ } else { seq![] },
        None => seq![],
    } + "\nYou must only output the optimized query, without any additional conversational text or formatting (e.g., no \"Optimized Query:\", no quotes around the query, no markdown code blocks and no description or summary about the optimization)."@
}

/// The view of an optional text.
pub open spec fn opt_str(o: Option<&str>) -> Option<Seq<char>> {
    match o {
        Some(s) => Some(s@),
        None => None,
    }
}

/// The request to optimize a query.
#[verifier::rlimit(40)]
pub fn optimization_prompt(
    original_prompt: &str,
    optimization_direction: Option<&str>,
    chat_history_str: Option<&str>,
    file_context_str: Option<&str>,
) -> (r: String)
    ensures
        r@ == optimization_prompt_text(
            original_prompt@,
            opt_str(optimization_direction),
            opt_str(chat_history_str),
            opt_str(file_context_str),
        ),
{
    let mut p = chars_of("You are an expert query optimization assistant. Your task is to refine user queries. .\n\n");
    match chat_history_str {
        Some(h) => {
            if chars_of(h).len() > 0 {
                append_str(&mut p, "Here is the relevant chat conversation history:\n");
                append_str(&mut p, h);
                append_str(&mut p, "\n\n");
            }
        },
        None => {},
    }
    match file_context_str {
        Some(f) => {
            if chars_of(f).len() > 0 {
                append_str(&mut p, "Here are the contents of the selected context files:\n");
                append_str(&mut p, f);
                append_str(&mut p, "\n\n");
            }
        },
        None => {},
    }
    append_str(&mut p, "Original prompt to optimize: \"");
    append_str(&mut p, original_prompt);
    append_str(&mut p, "\"");
    match optimization_direction {
        Some(d) => {
            if chars_of(d).len() > 0 {
                append_str(&mut p, "\nOptimization Direction: \"");
                append_str(&mut p, d);
                append_str(&mut p, "\"");
            }
        },
        None => {},
    }
    append_str(&mut p, "\nYou must only output the optimized query, without any additional conversational text or formatting (e.g., no \"Optimized Query:\", no quotes around the query, no markdown code blocks and no description or summary about the optimization).");
    string_of(&p)
}

/// Talks to the language models.
pub struct LlmService;

impl LlmService {
    pub fn new() -> Self {
        LlmService {}
    }

    /// What a model call gives its caller: the answer escaped for display, or
    /// `<what>: <error>` (`Error during analysis`, `Error during
    /// conversation`).
    pub fn reply_text(&self, result: Result<String, String>, what: &str) -> (r: String)
        ensures
            match result {
                Ok(c) => r@ == escape_html_spec(c@),
                Err(e) => r@ == what@ + ": "@ + e@,
            },
    {
        match result {
            Ok(c) => escape_html(c),
            Err(e) => {
                let mut m = chars_of(what);
                append_str(&mut m, ": ");
                append_str(&mut m, e.as_str());
                string_of(&m)
            },
        }
    }

    /// The summary prompt with the definitions of the summary's types from
    /// `struct_source` put in.
    pub fn prompt_with_structs(&self, template: &str, struct_source: &str) -> (r: String)
        ensures
            r@ == prompt_with_structs_text(template@, struct_source@),
    {
        let defs = extract_summary_types(struct_source);
        let t = chars_of(template);
        let out = replace_str(&t, "ReplaceWithStructCode", defs.as_str());
        string_of(&out)
    }
}

} // verus!
