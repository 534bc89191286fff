//! YAML summaries of source files: the service and its
//! parts, what a summary is built from, where it is kept, when it is made
//! again, and the keyword search over summaries.
use vstd::prelude::*;
use crate::embedding::uses_yaml;
use crate::file_service::{FileService, extension_or_empty, path_extension};
use crate::imports::{extract_imports, extracted_imports, views};
use crate::llm::{LlmService, lowercase, to_lowercase};
use crate::models::{EmbeddingMetadata, Project, lookup, same_but_embeddings};
use crate::paths::{join_path, path_join};
use crate::text::{
    append_chars, append_str, chars_of, contains, contains_exec, eq_str, join, replace, replace_str,
    string_of, words, words_exec,
};
use crate::yaml_processing::{YamlEntry, YamlProcessing, pair_views, walk};

verus! {

/// A function described by a summary.
pub struct Function {
    pub name: String,
    pub description: Option<String>,
    pub parameters: Vec<Parameter>,
    pub return_type: Option<String>,
    pub calls: Vec<String>,
}

/// A parameter (or property) described by a summary.
pub struct Parameter {
    pub name: String,
    pub param_type: String,
    pub description: Option<String>,
}

/// A class described by a summary.
pub struct Class {
    pub name: String,
    pub inherits: Option<String>,
    pub description: Option<String>,
    pub methods: Vec<Function>,
    pub properties: Vec<Parameter>,
}

/// Generates, reads back and maintains summaries.
pub struct YamlManagement {
    pub file_service: FileService,
    pub llm_service: LlmService,
}

/// A summary with its imports: the model's YAML, then (when the source has
/// imports) an `imports:` list with one entry per import.
pub open spec fn yaml_with_imports(yaml: Seq<char>, imports: Seq<Seq<char>>) -> Seq<char> {
    if imports.len() == 0 {
        yaml
    } else {
        yaml + "\n\nimports:\n  - "@ + join(imports, "\n  - "@)
    }
}

/// Where the parsed summary of a source path is read from: the project's
/// folder in the output directory, named after the path with `/` turned
/// into `*`.
pub open spec fn parsed_summary_path(output_dir: Seq<char>, project_name: Seq<char>, source_path: Seq<char>) -> Seq<char> {
    path_join(path_join(output_dir, project_name), replace(source_path, "/"@, "*"@))
}

/// What is done for one source file when summaries are generated.
pub enum GenerationStep {
    /// A Markdown file: its text is embedded as it is.
    EmbedMarkdown,
    /// A summary is generated, written and embedded.
    GenerateYaml,
    /// Nothing.
    Skip,
}

/// The step for a source file: Markdown files are embedded directly; other
/// files get a summary when summaries are used for them and one is needed
/// (always, when forced).
pub open spec fn generation_step(project: Project, path: Seq<char>, force: bool, needs_update: bool) -> GenerationStep {
    if extension_or_empty(path) == "md"@ {
        GenerationStep::EmbedMarkdown
    } else if uses_yaml(project, path) && (force || needs_update) {
        GenerationStep::GenerateYaml
    } else {
        GenerationStep::Skip
    }
}

impl YamlManagement {
    pub fn new() -> Self {
        Self { file_service: FileService, llm_service: LlmService::new() }
    }

    /// The summary of a source file with its imports appended; the imports
    /// are those of the file's language, given by its extension.
    pub fn combine_yaml_with_imports(&self, yaml_content: &str, file_path: &str, file_content: &str) -> (r: String)
        ensures
            r@ == yaml_with_imports(yaml_content@, extracted_imports(file_content@, extension_or_empty(file_path@)).0),
    {
        let language = path_extension(file_path);
        let (imports, _) = extract_imports(file_content, language.as_str());
        let mut out = chars_of(yaml_content);
        if imports.len() > 0 {
            append_str(&mut out, "\n\nimports:\n  - ");
            let mut parts: Vec<Vec<char>> = Vec::new();
            let mut i: usize = 0;
            while i < imports.len()
                invariant
                    i <= imports.len(),
                    parts@.map_values(|v: Vec<char>| v@) == views(imports@).take(i as int),
                decreases imports.len() - i,
            {
                let ghost before = parts@;
                parts.push(chars_of(imports[i].as_str()));
                assert(parts@.map_values(|v: Vec<char>| v@) =~= before.map_values(|v: Vec<char>| v@).push(imports@[i as int]@));
                assert(views(imports@).take(i + 1) =~= views(imports@).take(i as int).push(imports@[i as int]@));
                i += 1;
            }
            assert(views(imports@).take(imports.len() as int) =~= views(imports@));
            let joined = crate::text::join_exec(&parts, &chars_of("\n  - "));
            append_chars(&mut out, &joined);
        }
        string_of(&out)
    }

    /// Where the parsed summary of a source path is read from.
    pub fn parsed_yaml_path(&self, project: &Project, source_file_path: &str, output_dir: &str) -> (r: String)
        ensures
            r@ == parsed_summary_path(output_dir@, project.name@, source_file_path@),
    {
        let dir = join_path(output_dir, project.name.as_str());
        let name = string_of(&replace_str(&chars_of(source_file_path), "/", "*"));
        join_path(dir.as_str(), name.as_str())
    }

    /// The error given when a summary file cannot be read.
    pub fn unreadable_yaml_message(&self, yaml_file_path: &str, source_file_path: &str) -> (r: String)
        ensures
            r@ == "Failed to read YAML file "@ + yaml_file_path@ + " (source "@ + source_file_path@ + "): file not found"@,
    {
        let mut m = chars_of("Failed to read YAML file ");
        append_str(&mut m, yaml_file_path);
        append_str(&mut m, " (source ");
        append_str(&mut m, source_file_path);
        append_str(&mut m, "): file not found");
        string_of(&m)
    }

    /// What is done for one source file when summaries are generated.
    pub fn generation_step(&self, project: &Project, path: &String, force: bool, needs_update: bool) -> (r: GenerationStep)
        ensures
            r == generation_step(*project, path@, force, needs_update),
    {
        let ext = path_extension(path.as_str());
        if eq_str(&chars_of(ext.as_str()), "md") {
            GenerationStep::EmbedMarkdown
        } else if crate::embedding::use_yaml_for(project, path) && (force || needs_update) {
            GenerationStep::GenerateYaml
        } else {
            GenerationStep::Skip
        }
    }
}

// ------------------------------------------------------------------------
// Keyword search over summaries
// ------------------------------------------------------------------------
/// What the keyword search reads of one summary file.
pub struct SummaryFacts {
    /// The summary file's path.
    pub path: String,
    /// The summary's description.
    pub description: String,
    /// The calls listed for its functions and its classes' methods.
    pub calls: Vec<String>,
}

/// The distinct entries of a sequence, in order of first appearance.
pub open spec fn distinct_words(ws: Seq<Seq<char>>) -> Seq<Seq<char>>
    decreases ws.len(),
{
    if ws.len() == 0 {
        seq![]
    } else {
        let d = distinct_words(ws.drop_last());
        if d.contains(ws.last()) { d } else { d.push(ws.last()) }
    }
}

/// The keywords of a query: its distinct lowercase words.
pub open spec fn query_keywords(query: Seq<char>) -> Seq<Seq<char>> {
    distinct_words(words(lowercase(query)))
}

/// Whether some call mentions the keyword (ignoring case).
pub open spec fn calls_mention(calls: Seq<String>, kw: Seq<char>) -> bool {
    exists|i: int| 0 <= i < calls.len() && contains(lowercase(#[trigger] calls[i]@), kw)
}

/// The score of one keyword for a summary, in half points: 6 when the
/// description mentions it, 4 when a call does, 1 when the file's path does.
pub open spec fn keyword_score(s: SummaryFacts, kw: Seq<char>) -> nat {
    (if contains(lowercase(s.description@), kw) { 6nat } else { 0nat })
        + (if calls_mention(s.calls@, kw) { 4nat } else { 0nat })
        + (if contains(lowercase(s.path@), kw) { 1nat } else { 0nat })
}

/// The score of a summary over keywords, in half points.
pub open spec fn summary_score(s: SummaryFacts, kws: Seq<Seq<char>>) -> nat
    decreases kws.len(),
{
    if kws.len() == 0 {
        0
    } else {
        summary_score(s, kws.drop_last()) + keyword_score(s, kws.last())
    }
}

/// The summaries with a positive score, as `(path, score)`, in order.
pub open spec fn scored(ss: Seq<SummaryFacts>, kws: Seq<Seq<char>>) -> Seq<(Seq<char>, nat)>
    decreases ss.len(),
{
    if ss.len() == 0 {
        seq![]
    } else {
        let rest = scored(ss.drop_last(), kws);
        let sc = summary_score(ss.last(), kws);
        if sc > 0 { rest.push((ss.last().path@, sc)) } else { rest }
    }
}

/// Where a pair with score `k` goes in a list kept by descending score:
/// after every pair scored at least as high.
pub open spec fn score_position(s: Seq<(Seq<char>, nat)>, k: nat) -> int
    decreases s.len(),
{
    if s.len() == 0 {
        0
    } else if s.last().1 < k {
        score_position(s.drop_last(), k)
    } else {
        s.len() as int
    }
}

/// Pairs by descending score; equal scores keep their order.
pub open spec fn by_score(s: Seq<(Seq<char>, nat)>) -> Seq<(Seq<char>, nat)>
    decreases s.len(),
{
    if s.len() == 0 {
        seq![]
    } else {
        let r = by_score(s.drop_last());
        r.insert(score_position(r, s.last().1), s.last())
    }
}

/// The ranking of a keyword search: the summaries mentioning a keyword of
/// the query, best first, at most `n` of them; nothing for a query without
/// words.
pub open spec fn ranking(query: Seq<char>, ss: Seq<SummaryFacts>, n: nat) -> Seq<(Seq<char>, nat)> {
    let kws = query_keywords(query);
    if kws.len() == 0 {
        seq![]
    } else {
        let r = by_score(scored(ss, kws));
        if r.len() <= n { r } else { r.take(n as int) }
    }
}

proof fn lemma_score_position_bounds(s: Seq<(Seq<char>, nat)>, k: nat)
    ensures
        0 <= score_position(s, k) <= s.len(),
    decreases s.len(),
{
    if s.len() > 0 {
        lemma_score_position_bounds(s.drop_last(), k);
    }
}

proof fn lemma_by_score_len(s: Seq<(Seq<char>, nat)>)
    ensures
        by_score(s).len() == s.len(),
    decreases s.len(),
{
    if s.len() > 0 {
        lemma_by_score_len(s.drop_last());
        lemma_score_position_bounds(by_score(s.drop_last()), s.last().1);
    }
}

proof fn lemma_score_position_props(s: Seq<(Seq<char>, nat)>, k: nat)
    ensures
        forall|j: int| score_position(s, k) <= j < s.len() ==> (#[trigger] s[j]).1 < k,
        score_position(s, k) > 0 ==> s[score_position(s, k) - 1].1 >= k,
    decreases s.len(),
{
    if s.len() > 0 && s.last().1 < k {
        let d = s.drop_last();
        lemma_score_position_props(d, k);
        lemma_score_position_bounds(d, k);
        assert forall|j: int| score_position(s, k) <= j < s.len() implies (#[trigger] s[j]).1 < k by {
            if j < s.len() - 1 {
                assert(s[j] == d[j]);
            }
        }
    }
}

/// Ordering by score keeps every pair and puts higher scores first.
proof fn lemma_by_score_props(s: Seq<(Seq<char>, nat)>)
    ensures
        forall|i: int, j: int| 0 <= i < j < by_score(s).len() ==> (#[trigger] by_score(s)[i]).1
            >= (#[trigger] by_score(s)[j]).1,
        by_score(s).to_multiset() == s.to_multiset(),
    decreases s.len(),
{
    if s.len() == 0 {
        assert(by_score(s) =~= s);
    } else {
        let d = s.drop_last();
        let x = s.last();
        let r = by_score(d);
        lemma_by_score_props(d);
        lemma_by_score_len(d);
        lemma_score_position_bounds(r, x.1);
        lemma_score_position_props(r, x.1);
        let pos = score_position(r, x.1);
        let out = r.insert(pos, x);
        assert(by_score(s) == out);
        assert forall|i: int, j: int| 0 <= i < j < out.len() implies (#[trigger] out[i]).1 >= (
        #[trigger] out[j]).1 by {
            if j < pos {
                assert(r[i].1 >= r[j].1);
            } else if j == pos {
                assert(r[i].1 >= r[pos - 1].1);
            } else if i < pos {
                assert(r[i].1 >= r[j - 1].1);
            } else if i == pos {
                assert(r[j - 1].1 < x.1);
            } else {
                assert(r[i - 1].1 >= r[j - 1].1);
            }
        }
        vstd::seq_lib::to_multiset_insert(r, pos, x);
        vstd::seq_lib::to_multiset_build(d, x);
        assert(d.push(x) =~= s);
    }
}

/// Every summary that `scored` keeps has a positive score.
proof fn lemma_scored_positive(ss: Seq<SummaryFacts>, kws: Seq<Seq<char>>)
    ensures
        forall|i: int| 0 <= i < scored(ss, kws).len() ==> (#[trigger] scored(ss, kws)[i]).1 > 0,
    decreases ss.len(),
{
    if ss.len() > 0 {
        let rest = scored(ss.drop_last(), kws);
        lemma_scored_positive(ss.drop_last(), kws);
        assert forall|i: int| 0 <= i < scored(ss, kws).len() implies (#[trigger] scored(ss, kws)[i]).1
            > 0 by {
            if i < rest.len() {
                assert(rest[i].1 > 0);
            }
        }
    }
}

/// A keyword ranking lists at most `n` summaries, each with a positive score,
/// best first.
pub proof fn law_ranking_best_first(query: Seq<char>, ss: Seq<SummaryFacts>, n: nat)
    ensures
        ranking(query, ss, n).len() <= n,
        forall|i: int| 0 <= i < ranking(query, ss, n).len() ==> (#[trigger] ranking(query, ss, n)[i]).1 > 0,
        forall|i: int, j: int| 0 <= i < j < ranking(query, ss, n).len() ==> (#[trigger] ranking(
            query,
            ss,
            n,
        )[i]).1 >= (#[trigger] ranking(query, ss, n)[j]).1,
{
    let kws = query_keywords(query);
    if kws.len() > 0 {
        let sc = scored(ss, kws);
        let r = by_score(sc);
        lemma_by_score_props(sc);
        lemma_scored_positive(ss, kws);
        assert forall|i: int| 0 <= i < r.len() implies (#[trigger] r[i]).1 > 0 by {
            assert(r.to_multiset().count(r[i]) > 0) by {
                vstd::seq_lib::to_multiset_contains(r, r[i]);
            }
            vstd::seq_lib::to_multiset_contains(sc, r[i]);
            let k = choose|k: int| 0 <= k < sc.len() && sc[k] == r[i];
            assert(sc[k].1 > 0);
        }
    }
}

/// Whether a summary mentions a keyword (ignoring case): in its description,
/// in one of its calls, or in its file's path.
pub open spec fn mentions(s: SummaryFacts, kw: Seq<char>) -> bool {
    contains(lowercase(s.description@), kw) || calls_mention(s.calls@, kw) || contains(lowercase(s.path@), kw)
}

/// Whether a summary mentions some of the keywords.
pub open spec fn mentions_some(s: SummaryFacts, kws: Seq<Seq<char>>) -> bool {
    exists|k: int| 0 <= k < kws.len() && mentions(s, #[trigger] kws[k])
}

/// A summary scores above zero exactly when it mentions a keyword.
proof fn lemma_positive_iff_mentions(s: SummaryFacts, kws: Seq<Seq<char>>)
    ensures
        (summary_score(s, kws) > 0) == mentions_some(s, kws),
    decreases kws.len(),
{
    if kws.len() > 0 {
        let d = kws.drop_last();
        lemma_positive_iff_mentions(s, d);
        if mentions_some(s, d) {
            let k = choose|k: int| 0 <= k < d.len() && mentions(s, #[trigger] d[k]);
            assert(kws[k] == d[k]);
        }
        if mentions(s, kws.last()) {
            assert(kws[kws.len() - 1] == kws.last());
        }
        if mentions_some(s, kws) {
            let k = choose|k: int| 0 <= k < kws.len() && mentions(s, #[trigger] kws[k]);
            if k < kws.len() - 1 {
                assert(d[k] == kws[k]);
            }
        }
    }
}

/// `scored` holds the pair of every summary with a positive score, and only such pairs.
proof fn lemma_scored_members(ss: Seq<SummaryFacts>, kws: Seq<Seq<char>>)
    ensures
        forall|i: int| 0 <= i < ss.len() && summary_score(ss[i], kws) > 0 ==> scored(ss, kws).contains(
            (#[trigger] ss[i].path@, summary_score(ss[i], kws))),
        forall|j: int| 0 <= j < scored(ss, kws).len() ==> exists|i: int| 0 <= i < ss.len() && #[trigger] scored(ss, kws)[j]
            == (ss[i].path@, summary_score(ss[i], kws)) && summary_score(ss[i], kws) > 0,
    decreases ss.len(),
{
    if ss.len() > 0 {
        let d = ss.drop_last();
        let rest = scored(d, kws);
        let sc = summary_score(ss.last(), kws);
        lemma_scored_members(d, kws);
        let out = scored(ss, kws);
        assert forall|i: int| 0 <= i < ss.len() && summary_score(ss[i], kws) > 0 implies out.contains(
            (#[trigger] ss[i].path@, summary_score(ss[i], kws))) by {
            if i < ss.len() - 1 {
                assert(ss[i] == d[i]);
                assert(d[i].path@ == ss[i].path@);
                let x = (d[i].path@, summary_score(d[i], kws));
                assert(rest.contains(x));
                let w = choose|w: int| 0 <= w < rest.len() && rest[w] == x;
                assert(out[w] == x);
            } else {
                assert(ss[i] == ss.last());
                assert(out[out.len() - 1] == (ss.last().path@, sc));
            }
        }
        assert forall|j: int| 0 <= j < out.len() implies exists|i: int| 0 <= i < ss.len() && #[trigger] out[j]
            == (ss[i].path@, summary_score(ss[i], kws)) && summary_score(ss[i], kws) > 0 by {
            if j < rest.len() {
                assert(out[j] == rest[j]);
                let i = choose|i: int| 0 <= i < d.len() && #[trigger] rest[j] == (d[i].path@, summary_score(d[i], kws))
                    && summary_score(d[i], kws) > 0;
                assert(ss[i] == d[i]);
            } else {
                assert(ss[ss.len() - 1] == ss.last());
            }
        }
    }
}

/// The pair `(path, score)` is in the ranking `rk`, or `rk` is full (`n`
/// pairs) of pairs scoring at least `score`.
pub open spec fn listed_or_outranked(rk: Seq<(Seq<char>, nat)>, path: Seq<char>, score: nat, n: nat) -> bool {
    rk.contains((path, score)) || (rk.len() == n && forall|j: int| 0 <= j < rk.len() ==> (#[trigger] rk[j]).1 >= score)
}

/// The pair is that of a summary of `ss` that mentions a keyword.
pub open spec fn pair_of_mention(x: (Seq<char>, nat), ss: Seq<SummaryFacts>, kws: Seq<Seq<char>>) -> bool {
    exists|i: int| 0 <= i < ss.len() && x == (ss[i].path@, summary_score(ss[i], kws)) && #[trigger] mentions_some(ss[i], kws)
}

/// A keyword ranking lists exactly the summaries that mention a keyword of
/// the query, each with its score, as far as there is room: a summary that
/// mentions a keyword and is not listed lost its place to `n` summaries
/// scoring at least as high; every listed pair is such a summary's.
pub proof fn law_ranking_lists_the_mentions(query: Seq<char>, ss: Seq<SummaryFacts>, n: nat)
    ensures
        forall|j: int| 0 <= j < ranking(query, ss, n).len() ==> pair_of_mention(
            #[trigger] ranking(query, ss, n)[j], ss, query_keywords(query)),
        forall|i: int| 0 <= i < ss.len() && #[trigger] mentions_some(ss[i], query_keywords(query)) ==> listed_or_outranked(
            ranking(query, ss, n), ss[i].path@, summary_score(ss[i], query_keywords(query)), n),
{
    let kws = query_keywords(query);
    let rk = ranking(query, ss, n);
    if kws.len() == 0 {
        assert(rk.len() == 0);
        assert forall|i: int| 0 <= i < ss.len() implies !#[trigger] mentions_some(ss[i], kws) by {}
    } else {
        let sc = scored(ss, kws);
        let r = by_score(sc);
        lemma_by_score_props(sc);
        lemma_scored_members(ss, kws);
        assert forall|j: int| 0 <= j < rk.len() implies pair_of_mention(#[trigger] rk[j], ss, kws) by {
            assert(rk[j] == r[j]);
            assert(r.to_multiset().count(r[j]) > 0) by {
                vstd::seq_lib::to_multiset_contains(r, r[j]);
            }
            vstd::seq_lib::to_multiset_contains(sc, r[j]);
            let k = choose|k: int| 0 <= k < sc.len() && sc[k] == r[j];
            let i = choose|i: int| 0 <= i < ss.len() && #[trigger] sc[k] == (ss[i].path@, summary_score(ss[i], kws))
                && summary_score(ss[i], kws) > 0;
            lemma_positive_iff_mentions(ss[i], kws);
        }
        assert forall|i: int| 0 <= i < ss.len() && #[trigger] mentions_some(ss[i], kws) implies listed_or_outranked(
            rk, ss[i].path@, summary_score(ss[i], kws), n) by {
            lemma_positive_iff_mentions(ss[i], kws);
            let x = (ss[i].path@, summary_score(ss[i], kws));
            assert(sc.contains(x));
            vstd::seq_lib::to_multiset_contains(sc, x);
            assert(r.to_multiset().count(x) > 0);
            vstd::seq_lib::to_multiset_contains(r, x);
            let p = choose|p: int| 0 <= p < r.len() && r[p] == x;
            if r.len() <= n {
                assert(rk == r);
                assert(rk[p] == x);
            } else {
                assert(rk == r.take(n as int));
                if p < n {
                    assert(rk[p] == x);
                } else {
                    assert forall|j: int| 0 <= j < rk.len() implies (#[trigger] rk[j]).1 >= summary_score(ss[i], kws) by {
                        assert(rk[j] == r[j]);
                        assert(r[j].1 >= r[p].1);
                    }
                }
            }
        }
    }
}

/// The views of `(path, score)` pairs.
pub open spec fn ranked_views(v: Seq<(String, u128)>) -> Seq<(Seq<char>, nat)> {
    v.map_values(|p: (String, u128)| (p.0@, p.1 as nat))
}

fn lower_contains(text: &String, kw: &Vec<char>) -> (r: bool)
    ensures
        r == contains(lowercase(text@), kw@),
{
    let l = chars_of(to_lowercase(text.as_str()).as_str());
    contains_exec(&l, kw)
}

fn keyword_score_exec(s: &SummaryFacts, kw: &Vec<char>) -> (r: u128)
    ensures
        r == keyword_score(*s, kw@),
{
    let mut sc: u128 = 0;
    if lower_contains(&s.description, kw) {
        sc = sc + 6;
    }
    let mut i: usize = 0;
    let mut found = false;
    while i < s.calls.len()
        invariant
            i <= s.calls.len(),
            found == exists|j: int| 0 <= j < i && contains(lowercase(#[trigger] s.calls@[j]@), kw@),
        decreases s.calls.len() - i,
    {
        if lower_contains(&s.calls[i], kw) {
            found = true;
        }
        i += 1;
    }
    if found {
        sc = sc + 4;
    }
    if lower_contains(&s.path, kw) {
        sc = sc + 1;
    }
    sc
}

/// Ranks summaries for a keyword query: each summary is scored (in half
/// points) over the query's distinct lowercase words; those with a positive
/// score are listed best first (ties in the given order), at most
/// `num_results` of them.
#[verifier::rlimit(40)]
pub fn keyword_ranking(query_text: &str, summaries: &Vec<SummaryFacts>, num_results: usize) -> (r: Vec<(String, u128)>)
    ensures
        ranked_views(r@) == ranking(query_text@, summaries@, num_results as nat),
{
    let q = chars_of(to_lowercase(query_text).as_str());
    assert(q@ == lowercase(query_text@));
    let ws = words_exec(&q);
    let ghost wsv = words(q@);
    let mut kws: Vec<Vec<char>> = Vec::new();
    let mut i: usize = 0;
    while i < ws.len()
        invariant
            i <= ws.len(),
            wsv == words(q@),
            ws@.len() == wsv.len(),
            forall|k: int| 0 <= k < ws@.len() ==> #[trigger] ws@[k]@ == wsv[k],
            kws@.map_values(|v: Vec<char>| v@) == distinct_words(wsv.take(i as int)),
            kws@.len() <= i,
        decreases ws.len() - i,
    {
        assert(wsv.take(i + 1).drop_last() =~= wsv.take(i as int));
        assert(wsv.take(i + 1).last() == ws@[i as int]@);
        let ghost kv = kws@.map_values(|v: Vec<char>| v@);
        let mut seen = false;
        let mut j: usize = 0;
        while j < kws.len()
            invariant
                j <= kws.len(),
                i < ws.len(),
                kv == kws@.map_values(|v: Vec<char>| v@),
                seen == exists|m: int| 0 <= m < j && kv[m] == ws@[i as int]@,
            decreases kws.len() - j,
        {
            assert(kv[j as int] == kws@[j as int]@);
            if crate::text::chars_eq(&kws[j], &ws[i]) {
                seen = true;
            }
            j += 1;
        }
        assert(seen == kv.contains(ws@[i as int]@));
        if !seen {
            kws.push(crate::text::slice(&ws[i], 0, ws[i].len()));
            assert(ws@[i as int]@.subrange(0, ws@[i as int]@.len() as int) =~= ws@[i as int]@);
            assert(kws@.map_values(|v: Vec<char>| v@) =~= kv.push(ws@[i as int]@));
        }
        i += 1;
    }
    assert(wsv.take(ws.len() as int) =~= wsv);
    let ghost kwv = kws@.map_values(|v: Vec<char>| v@);
    if kws.len() == 0 {
        let r: Vec<(String, u128)> = Vec::new();
        assert(ranked_views(r@) =~= seq![]);
        return r;
    }
    // score every summary
    let nk = kws.len();
    let mut found: Vec<(String, u128)> = Vec::new();
    let mut s: usize = 0;
    while s < summaries.len()
        invariant
            s <= summaries.len(),
            nk == kws@.len(),
            kwv == kws@.map_values(|v: Vec<char>| v@),
            ranked_views(found@) == scored(summaries@.take(s as int), kwv),
        decreases summaries.len() - s,
    {
        assert(summaries@.take(s + 1).drop_last() =~= summaries@.take(s as int));
        assert(summaries@.take(s + 1).last() == summaries@[s as int]);
        let mut total: u128 = 0;
        let mut k: usize = 0;
        while k < kws.len()
            invariant
                k <= kws.len(),
                s < summaries.len(),
                nk == kws@.len(),
                kwv == kws@.map_values(|v: Vec<char>| v@),
                total == summary_score(summaries@[s as int], kwv.take(k as int)),
                total <= 11 * k,
            decreases kws.len() - k,
        {
            assert(kwv.take(k + 1).drop_last() =~= kwv.take(k as int));
            assert(kwv.take(k + 1).last() == kws@[k as int]@);
            let part = keyword_score_exec(&summaries[s], &kws[k]);
            total = total + part;
            k += 1;
        }
        assert(kwv.take(kws.len() as int) =~= kwv);
        if total > 0 {
            let ghost before = found@;
            found.push((summaries[s].path.clone(), total));
            assert(ranked_views(found@) =~= ranked_views(before).push((summaries@[s as int].path@, total as nat)));
        }
        s += 1;
    }
    assert(summaries@.take(summaries.len() as int) =~= summaries@);
    // stable insertion by descending score
    let ghost fv = ranked_views(found@);
    let mut sorted: Vec<(String, u128)> = Vec::new();
    let mut t: usize = 0;
    while t < found.len()
        invariant
            t <= found.len(),
            fv == ranked_views(found@),
            ranked_views(sorted@) == by_score(fv.take(t as int)),
        decreases found.len() - t,
    {
        assert(fv.take(t + 1).drop_last() =~= fv.take(t as int));
        assert(fv.take(t + 1).last() == fv[t as int]);
        proof {
            lemma_by_score_len(fv.take(t as int));
            lemma_score_position_bounds(by_score(fv.take(t as int)), fv[t as int].1);
        }
        let sc = found[t].1;
        let mut pos: usize = sorted.len();
        assert(ranked_views(sorted@).take(pos as int) =~= ranked_views(sorted@));
        loop
            invariant
                pos <= sorted@.len(),
                sc == fv[t as int].1,
                score_position(ranked_views(sorted@), sc as nat) == score_position(ranked_views(sorted@).take(pos as int), sc as nat),
            ensures
                score_position(ranked_views(sorted@), sc as nat) == pos,
            decreases pos,
        {
            if pos == 0 {
                assert(ranked_views(sorted@).take(0) =~= Seq::<(Seq<char>, nat)>::empty());
                break;
            }
            assert(ranked_views(sorted@).take(pos as int).last() == ranked_views(sorted@)[pos - 1]);
            if !(sorted[pos - 1].1 < sc) {
                break;
            }
            assert(ranked_views(sorted@).take(pos as int).drop_last() =~= ranked_views(sorted@).take(pos - 1));
            pos -= 1;
        }
        let ghost before = ranked_views(sorted@);
        sorted.insert(pos, (found[t].0.clone(), sc));
        assert(ranked_views(sorted@) =~= before.insert(pos as int, fv[t as int]));
        t += 1;
    }
    assert(fv.take(found.len() as int) =~= fv);
    proof {
        lemma_by_score_len(fv);
    }
    assert(kwv == query_keywords(query_text@));
    assert(ranked_views(sorted@) == by_score(scored(summaries@, kwv)));
    let mut r: Vec<(String, u128)> = Vec::new();
    let mut u: usize = 0;
    while u < sorted.len() && u < num_results
        invariant
            u <= sorted.len(),
            u <= num_results,
            ranked_views(r@) == ranked_views(sorted@).take(u as int),
        decreases sorted.len() - u,
    {
        r.push((sorted[u].0.clone(), sorted[u].1));
        assert(ranked_views(sorted@).take(u + 1) =~= ranked_views(sorted@).take(u as int).push(ranked_views(sorted@)[u as int]));
        assert(ranked_views(r@) =~= ranked_views(sorted@).take(u + 1));
        u += 1;
    }
    assert(ranked_views(sorted@).take(sorted@.len() as int) =~= ranked_views(sorted@));
    assert(u == sorted.len() || u == num_results);
    r
}

// ------------------------------------------------------------------------
// The service
// ------------------------------------------------------------------------
/// Makes and reads a project's summaries.
pub struct YamlService {
    pub management: YamlManagement,
    pub processing: YamlProcessing,
}

impl YamlService {
    pub fn new() -> Self {
        Self { management: YamlManagement::new(), processing: YamlProcessing::new() }
    }

    /// Walks the entries of the project's summary directory
    /// (see `YamlProcessing::process_yaml_files`).
    pub fn process_yaml_files(
        &self,
        entries: &Vec<YamlEntry>,
        project_name: &str,
        project: &mut Project,
    ) -> (res: Result<(String, Vec<(String, String)>, bool, Vec<String>), String>)
        requires
            old(project).wf(),
        ensures
            final(project).wf(),
            same_but_embeddings(*final(project), *old(project)),
            ({
                let w = walk(entries@, project_name@, old(project).embeddings@);
                &&& final(project).embeddings@ == w.4
                &&& match res {
                    Ok(r) => w.5 is None && r.0@ == w.0 && pair_views(r.1@) == w.1 && r.2 == w.2
                        && r.3@.map_values(|s: String| s@) == w.3,
                    Err(e) => w.5 == Some(e@),
                }
            }),
    {
        self.processing.process_yaml_files(entries, project_name, project)
    }

    /// Ranks the summaries for a keyword query (see `keyword_ranking`).
    pub fn bm25f_rank(&self, query_text: &str, summaries: &Vec<SummaryFacts>, num_results: usize) -> (r: Vec<(String, u128)>)
        ensures
            ranked_views(r@) == ranking(query_text@, summaries@, num_results as nat),
    {
        keyword_ranking(query_text, summaries, num_results)
    }
}

} // verus!
