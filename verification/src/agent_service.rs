//! The single-turn agent (`AgentService`): one search, one architect
//! decision and its work (fetching sources or searching again) within the
//! turn, then the answer. Each step takes what the outside work gave as
//! values and keeps the agent's context and notes.
use vstd::prelude::*;
use crate::agent::{AgentContext, distinct_keys, map_of, string_views, unnormalized_notes, untargeted_notes};
use crate::agent_flow::{
    ArchitectDecision, ArchitectView, GenerationInput, files_text, generation_input, last_lookup, lemma_has_key_dom, note,
    note_str, pick_summaries, same_files, search_more_fold, take_search_hits,
};
use crate::sort::sorted_by_key;
use crate::json::{field_views, json_fields, key_views, opt_views, read_json_fields};
use crate::chat::ChatMessage;
use crate::html::{unescape_html, unescape_html_spec};
use crate::imports::views;
use crate::models::{Project, keys};
use crate::paths::{PathUtils, normalized_path};
use crate::pattern::opt_view;
use crate::text::{
    append_chars, append_str, before, before_str, chars_of, decimal, decimal_exec, second_piece,
    second_piece_str, string_of, trim, trim_exec,
};

verus! {

/// The agent that answers a chat message in one architect turn.
pub struct AgentService;

/// The JSON block of a model's analysis: the text after the first
/// ```` ```json ```` up to the next ```` ``` ```` (or the next
/// ```` ```json ````), trimmed; empty when there is none.
pub open spec fn analysis_block(text: Seq<char>) -> Seq<char> {
    match second_piece(text, "```json"@) {
        Some(p) => trim(before(p, "```"@)),
        None => seq![],
    }
}

/// What the analysis JSON holds: `suggested_files` (each entry that is a
/// string) and `bm25_keywords`, when they have those types.
pub struct AnalysisView {
    pub suggested_files: Option<Seq<Option<Seq<char>>>>,
    pub bm25_keywords: Option<Seq<char>>,
}

/// The fields of the analysis JSON.
pub struct AnalysisFields {
    pub suggested_files: Option<Vec<Option<String>>>,
    pub bm25_keywords: Option<String>,
}

impl AnalysisFields {
    /// What the fields hold.
    pub open spec fn view_fields(&self) -> AnalysisView {
        AnalysisView {
            suggested_files: match self.suggested_files {
                Some(p) => Some(opt_views(p@)),
                None => None,
            },
            bm25_keywords: opt_view(self.bm25_keywords),
        }
    }
}

/// The keys read from the analysis JSON.
pub open spec fn analysis_keys() -> Seq<Seq<char>> {
    seq!["suggested_files"@, "bm25_keywords"@]
}

/// What `serde_json` reads from a text as the analysis fields, or the message
/// of its parse error.
pub open spec fn analysis_json(text: Seq<char>) -> Result<AnalysisView, Seq<char>> {
    match json_fields(text, analysis_keys()) {
        Ok((fs, _d)) => Ok(AnalysisView { suggested_files: fs[0].texts, bm25_keywords: fs[1].text }),
        Err(e) => Err(e),
    }
}

/// The analysis fields read from a JSON text, or the parse error's message.
fn parse_analysis_json(text: &str) -> (r: Result<AnalysisFields, String>)
    ensures
        match r {
            Ok(f) => analysis_json(text@) == Ok::<AnalysisView, Seq<char>>(f.view_fields()),
            Err(e) => analysis_json(text@) == Err::<AnalysisView, Seq<char>>(e@),
        },
{
    let keys = vec!["suggested_files", "bm25_keywords"];
    assert(key_views(keys@) =~= analysis_keys());
    match read_json_fields(text, &keys) {
        Err(e) => Err(e),
        Ok((fs, _rendered)) => {
            let ghost v = field_views(fs@);
            let mut fs = fs;
            let f1 = fs.pop().unwrap();
            let f0 = fs.pop().unwrap();
            assert(v[0] == f0.view_field() && v[1] == f1.view_field());
            Ok(AnalysisFields { suggested_files: f0.texts, bm25_keywords: f1.text })
        },
    }
}

/// The distinct string entries of a list, in order of first appearance.
pub open spec fn distinct_present(ps: Seq<Option<Seq<char>>>) -> Seq<Seq<char>>
    decreases ps.len(),
{
    if ps.len() == 0 {
        seq![]
    } else {
        let s = distinct_present(ps.drop_last());
        match ps.last() {
            Some(p) => crate::agent::add_unique(s, p),
            None => s,
        }
    }
}

/// What the single-turn agent takes from the model's analysis of its search:
/// the suggested files (distinct, strings only) and the keywords, or an error.
pub open spec fn analysis_outcome(raw: Seq<char>) -> Result<(Seq<Seq<char>>, Seq<char>), Seq<char>> {
    match analysis_json(analysis_block(unescape_html_spec(raw))) {
        Err(e) => Err("Failed to parse LLM analysis JSON: "@ + e),
        Ok(v) => Ok((
            match v.suggested_files {
                Some(ps) => distinct_present(ps),
                None => seq![],
            },
            match v.bm25_keywords {
                Some(k) => k,
                None => seq![],
            },
        )),
    }
}

// ------------------------------------------------------------------------
// The architect's decision within the turn
// ------------------------------------------------------------------------
/// What the architect's answer leads to within the single turn, as values.
pub enum TurnStep {
    /// Fetch the full source of the entries of `paths` (`None`: an entry that
    /// is not a string).
    Fetch(Seq<Option<Seq<char>>>),
    /// Search the summaries again with these keywords.
    Search(Seq<char>),
    /// Answer with the context held.
    Generate,
}

/// What the architect's answer leads to within the single turn.
pub enum TurnAction {
    /// Fetch the full source of the entries of `paths` (`None`: an entry that
    /// is not a string).
    Fetch(Vec<Option<String>>),
    /// Search the summaries again with these keywords.
    Search(String),
    /// Answer with the context held.
    Generate,
}

impl TurnAction {
    /// The action as values.
    pub open spec fn view_action(&self) -> TurnStep {
        match self {
            TurnAction::Fetch(ps) => TurnStep::Fetch(opt_views(ps@)),
            TurnAction::Search(k) => TurnStep::Search(k@),
            TurnAction::Generate => TurnStep::Generate,
        }
    }
}

/// The thoughts noted on the architect's answer within the single turn, and
/// what it leads to (or the error).
///
/// Without an action the answer is refused. `FETCH_SOURCE` needs a `paths`
/// array, `SEARCH_MORE` a `keywords` string; `GENERATE` and any other action
/// answer with the context held.
pub open spec fn turn_decided(d: ArchitectView) -> (Seq<Seq<char>>, Result<TurnStep, Seq<char>>) {
    let t0 = seq!["Architect decision: "@ + d.rendered];
    match d.action {
        None => (t0, Err("Architect decision missing 'action' field or not a string."@)),
        Some(a) => {
            let reason = match d.reason {
                Some(r) => r,
                None => "No reason provided."@,
            };
            let t1 = t0.push("Architect Reason: "@ + reason);
            if a == "FETCH_SOURCE"@ {
                let t2 = t1.push("Architect decided to FETCH_SOURCE."@);
                match d.paths {
                    None => (t2, Err("FETCH_SOURCE action requires 'paths' array."@)),
                    Some(ps) => (t2, Ok(TurnStep::Fetch(ps))),
                }
            } else if a == "SEARCH_MORE"@ {
                let t2 = t1.push("Architect decided to SEARCH_MORE."@);
                match d.keywords {
                    None => (t2, Err("SEARCH_MORE action requires 'keywords' string."@)),
                    Some(k) => (t2, Ok(TurnStep::Search(k))),
                }
            } else if a == "GENERATE"@ {
                (t1.push("Architect decided to GENERATE directly."@), Ok(TurnStep::Generate))
            } else {
                (t1.push("Architect returned an unknown action: "@ + a + ". Proceeding with current context."@), Ok(TurnStep::Generate))
            }
        },
    }
}

fn copy_opt_strings(v: &Vec<Option<String>>) -> (r: Vec<Option<String>>)
    ensures
        opt_views(r@) == opt_views(v@),
{
    let mut r: Vec<Option<String>> = Vec::new();
    let mut i: usize = 0;
    while i < v.len()
        invariant
            i <= v.len(),
            opt_views(r@) == opt_views(v@).take(i as int),
        decreases v.len() - i,
    {
        let ghost before = r@;
        let x = match &v[i] {
            Some(p) => Some(p.clone()),
            None => None,
        };
        r.push(x);
        assert(opt_views(r@) =~= opt_views(before).push(opt_view(v@[i as int])));
        assert(opt_views(v@).take(i + 1) =~= opt_views(v@).take(i as int).push(opt_view(v@[i as int])));
        i += 1;
    }
    assert(opt_views(v@).take(v.len() as int) =~= opt_views(v@));
    r
}

// ------------------------------------------------------------------------
// Fetching within the turn
// ------------------------------------------------------------------------
/// The project path whose source fetching `raw` reads: its normalized form,
/// unless there is none or that file's source is already held.
pub open spec fn fetch_target(raw: Seq<char>, project: Project, sources: Map<Seq<char>, Seq<char>>) -> Option<Seq<char>> {
    match normalized_path(raw, project.file_descriptions@, keys(project.embeddings@), project.source_dir@) {
        Some(q) => if sources.dom().contains(q) {
            None
        } else {
            Some(q)
        },
        None => None,
    }
}

/// The sources and summaries held and the thoughts noted after fetching the
/// first `n` requested paths in turn: a path that cannot be normalized, or
/// whose source is held already, is noted and skipped; otherwise what reading
/// it gave (`contents[i]`) is held as its full source (its summary dropped),
/// or the failure is noted.
pub open spec fn turn_fetch_fold(
    project: Project,
    sources: Map<Seq<char>, Seq<char>>,
    summaries: Map<Seq<char>, Seq<char>>,
    paths: Seq<String>,
    contents: Seq<Option<String>>,
    n: int,
) -> (Map<Seq<char>, Seq<char>>, Map<Seq<char>, Seq<char>>, Seq<Seq<char>>)
    decreases n,
{
    if n <= 0 {
        (sources, summaries, seq![])
    } else {
        let (s, m, ts) = turn_fetch_fold(project, sources, summaries, paths, contents, n - 1);
        let raw = paths[n - 1]@;
        match normalized_path(raw, project.file_descriptions@, keys(project.embeddings@), project.source_dir@) {
            None => (s, m, ts.push("Could not normalize path for fetching: "@ + raw)),
            Some(q) => if s.dom().contains(q) {
                (s, m, ts.push("File already in active context, skipping fetch: "@ + q))
            } else {
                match contents[n - 1] {
                    Some(c) => (s.insert(q, c@), m.remove(q), ts.push("Fetched full source for: "@ + q)),
                    None => (s, m, ts.push("Failed to read file: "@ + q)),
                }
            },
        }
    }
}

impl AgentService {
    /// The request for a detailed semantic-search query (see
    /// `agent::generate_contextual_vector_query`).
    pub fn generate_contextual_vector_query(initial_query: &str, unescaped_history: &Vec<ChatMessage>, user_message_content: &str) -> (q: String)
        ensures
            q@ == crate::agent::contextual_query(initial_query@, unescaped_history@, user_message_content@),
    {
        crate::agent::generate_contextual_vector_query(initial_query, unescaped_history, user_message_content)
    }

    /// The JSON block of a model's analysis.
    pub fn analysis_json_block(text: &str) -> (r: String)
        ensures
            r@ == analysis_block(text@),
    {
        let t = chars_of(text);
        match second_piece_str(&t, "```json") {
            Some(p) => {
                let b = before_str(&p, "```");
                string_of(&trim_exec(&b))
            },
            None => String::new(),
        }
    }

    /// Reads the model's analysis of a search (escaped as the search returns
    /// it): the distinct suggested files and the keyword query, or
    /// `Failed to parse LLM analysis JSON: <error>`. Notes how many files were
    /// suggested and which keywords were given.
    pub fn read_llm_analysis(llm_analysis_raw: String, thoughts: &mut Vec<String>) -> (r: Result<(Vec<String>, String), String>)
        ensures
            match analysis_outcome(llm_analysis_raw@) {
                Err(e) => r matches Err(m) && m@ == e && final(thoughts)@ == old(thoughts)@,
                Ok((files, kw)) => r matches Ok((f, k)) && views(f@) == files && k@ == kw
                    && string_views(final(thoughts)@) == string_views(old(thoughts)@) + seq![
                        "LLM Analysis suggested "@ + decimal(files.len()) + " files for full source from vector search."@,
                        "LLM Analysis provided BM25 keywords: '"@ + kw + "'"@,
                    ],
            },
    {
        let unescaped = unescape_html(llm_analysis_raw);
        let block = Self::analysis_json_block(unescaped.as_str());
        let fields = match parse_analysis_json(block.as_str()) {
            Ok(f) => f,
            Err(e) => {
                let mut m = chars_of("Failed to parse LLM analysis JSON: ");
                append_str(&mut m, e.as_str());
                return Err(string_of(&m));
            },
        };
        let mut files: Vec<String> = Vec::new();
        match &fields.suggested_files {
            Some(ps) => {
                let ghost pv = opt_views(ps@);
                let mut i: usize = 0;
                while i < ps.len()
                    invariant
                        i <= ps.len(),
                        pv == opt_views(ps@),
                        views(files@) == distinct_present(pv.take(i as int)),
                        forall|a: int, b: int| 0 <= a < b < files@.len() ==> files@[a]@ != files@[b]@,
                    decreases ps.len() - i,
                {
                    assert(pv.take(i + 1).drop_last() =~= pv.take(i as int));
                    assert(pv.take(i + 1).last() == opt_view(ps@[i as int]));
                    match &ps[i] {
                        Some(p) => {
                            assert(views(files@) =~= string_views(files@));
                            crate::agent::push_unique(&mut files, p.clone());
                            assert(views(files@) =~= string_views(files@));
                        },
                        None => {},
                    }
                    i += 1;
                }
                assert(pv.take(ps.len() as int) =~= pv);
            },
            None => {
                assert(views(files@) =~= seq![]);
            },
        }
        let kw = match &fields.bm25_keywords {
            Some(k) => k.clone(),
            None => String::new(),
        };
        let mut a = chars_of("LLM Analysis suggested ");
        append_chars(&mut a, &decimal_exec(files.len()));
        append_str(&mut a, " files for full source from vector search.");
        let mut b = chars_of("LLM Analysis provided BM25 keywords: '");
        append_str(&mut b, kw.as_str());
        append_str(&mut b, "'");
        let ghost t0 = thoughts@;
        thoughts.push(string_of(&a));
        thoughts.push(string_of(&b));
        assert(string_views(thoughts@) =~= string_views(t0) + seq![a@, b@]);
        Ok((files, kw))
    }

    /// Notes the architect's answer and what it leads to within the turn.
    pub fn decide_single_turn(decision: &ArchitectDecision, context: &mut AgentContext) -> (r: Result<TurnAction, String>)
        ensures
            string_views(final(context).thoughts@) == string_views(old(context).thoughts@) + turn_decided(decision.view_decision()).0,
            same_files(*final(context), *old(context)),
            match turn_decided(decision.view_decision()).1 {
                Ok(s) => r matches Ok(a) && a.view_action() == s,
                Err(e) => r matches Err(m) && m@ == e,
            },
    {
        let ghost t0 = string_views(context.thoughts@);
        let ghost dv = decision.view_decision();
        let mut t = chars_of("Architect decision: ");
        append_str(&mut t, decision.rendered.as_str());
        note(context, &t);
        let action = match &decision.action {
            None => {
                assert(string_views(context.thoughts@) =~= t0 + turn_decided(dv).0);
                return Err(string_of(&chars_of("Architect decision missing 'action' field or not a string.")));
            },
            Some(a) => a,
        };
        let mut rt = chars_of("Architect Reason: ");
        match &decision.reason {
            Some(r) => append_str(&mut rt, r.as_str()),
            None => append_str(&mut rt, "No reason provided."),
        }
        note(context, &rt);
        let av = chars_of(action.as_str());
        if crate::text::eq_str(&av, "FETCH_SOURCE") {
            note_str(context, "Architect decided to FETCH_SOURCE.");
            match &decision.paths {
                None => {
                    assert(string_views(context.thoughts@) =~= t0 + turn_decided(dv).0);
                    Err(string_of(&chars_of("FETCH_SOURCE action requires 'paths' array.")))
                },
                Some(ps) => {
                    assert(string_views(context.thoughts@) =~= t0 + turn_decided(dv).0);
                    Ok(TurnAction::Fetch(copy_opt_strings(ps)))
                },
            }
        } else if crate::text::eq_str(&av, "SEARCH_MORE") {
            note_str(context, "Architect decided to SEARCH_MORE.");
            match &decision.keywords {
                None => {
                    assert(string_views(context.thoughts@) =~= t0 + turn_decided(dv).0);
                    Err(string_of(&chars_of("SEARCH_MORE action requires 'keywords' string.")))
                },
                Some(k) => {
                    assert(string_views(context.thoughts@) =~= t0 + turn_decided(dv).0);
                    Ok(TurnAction::Search(k.clone()))
                },
            }
        } else if crate::text::eq_str(&av, "GENERATE") {
            note_str(context, "Architect decided to GENERATE directly.");
            assert(string_views(context.thoughts@) =~= t0 + turn_decided(dv).0);
            Ok(TurnAction::Generate)
        } else {
            let mut u = chars_of("Architect returned an unknown action: ");
            append_chars(&mut u, &av);
            append_str(&mut u, ". Proceeding with current context.");
            note(context, &u);
            assert(string_views(context.thoughts@) =~= t0 + turn_decided(dv).0);
            Ok(TurnAction::Generate)
        }
    }

    /// Checks the architect's `paths` entries: `Path in 'paths' array is not
    /// a string.` when one is not; otherwise the paths and, for each, the
    /// project path whose source is to be read (see `fetch_target`).
    pub fn fetch_targets(project: &Project, context: &AgentContext, paths: &Vec<Option<String>>) -> (r: Result<(Vec<String>, Vec<Option<String>>), String>)
        ensures
            match r {
                Err(m) => m@ == "Path in 'paths' array is not a string."@ && exists|i: int| 0 <= i < paths@.len() && #[trigger] paths@[i] is None,
                Ok((ps, ts)) => ps@.len() == paths@.len() && ts@.len() == paths@.len() && forall|i: int|
                    0 <= i < paths@.len() ==> (#[trigger] paths@[i] matches Some(p) && ps@[i]@ == p@
                        && opt_view(ts@[i]) == fetch_target(ps@[i]@, *project, context.sources())),
            },
    {
        let mut ps: Vec<String> = Vec::new();
        let mut ts: Vec<Option<String>> = Vec::new();
        let mut i: usize = 0;
        while i < paths.len()
            invariant
                i <= paths.len(),
                ps@.len() == i,
                ts@.len() == i,
                forall|j: int| 0 <= j < i ==> (#[trigger] paths@[j] matches Some(p) && ps@[j]@ == p@
                    && opt_view(ts@[j]) == fetch_target(ps@[j]@, *project, context.sources())),
            decreases paths.len() - i,
        {
            match &paths[i] {
                None => {
                    assert(paths@[i as int] is None);
                    return Err(string_of(&chars_of("Path in 'paths' array is not a string.")));
                },
                Some(p) => {
                    let t = match PathUtils::normalize_project_path(p.as_str(), project) {
                        Some(q) => {
                            proof {
                                lemma_has_key_dom(context.file_contents_map@, q@);
                            }
                            if crate::models::contains_key(&context.file_contents_map, &q) {
                                None
                            } else {
                                Some(q)
                            }
                        },
                        None => None,
                    };
                    ps.push(p.clone());
                    ts.push(t);
                },
            }
            i += 1;
        }
        Ok((ps, ts))
    }

    /// Fetches the requested paths in turn (see `turn_fetch_fold`);
    /// `contents[i]` is what reading the `i`-th path's target gave.
    pub fn fetch_in_turn(context: &mut AgentContext, project: &Project, paths: &Vec<String>, contents: &Vec<Option<String>>)
        requires
            old(context).wf(),
            contents@.len() == paths@.len(),
        ensures
            final(context).wf(),
            ({
                let (s, m, ts) = turn_fetch_fold(*project, old(context).sources(), old(context).summaries(), paths@, contents@, paths@.len() as int);
                &&& final(context).sources() == s
                &&& final(context).summaries() == m
                &&& string_views(final(context).thoughts@) == string_views(old(context).thoughts@) + ts
            }),
            final(context).turn_count == old(context).turn_count,
            final(context).max_turns == old(context).max_turns,
    {
        let ghost t0 = string_views(context.thoughts@);
        let ghost src0 = context.sources();
        let ghost sum0 = context.summaries();
        let mut i: usize = 0;
        while i < paths.len()
            invariant
                i <= paths.len(),
                contents@.len() == paths@.len(),
                context.wf(),
                ({
                    let (s, m, ts) = turn_fetch_fold(*project, src0, sum0, paths@, contents@, i as int);
                    &&& context.sources() == s
                    &&& context.summaries() == m
                    &&& string_views(context.thoughts@) == t0 + ts
                }),
                context.turn_count == old(context).turn_count,
                context.max_turns == old(context).max_turns,
            decreases paths.len() - i,
        {
            match PathUtils::normalize_project_path(paths[i].as_str(), project) {
                None => {
                    let mut t = chars_of("Could not normalize path for fetching: ");
                    append_str(&mut t, paths[i].as_str());
                    note(context, &t);
                },
                Some(q) => {
                    proof {
                        lemma_has_key_dom(context.file_contents_map@, q@);
                    }
                    if crate::models::contains_key(&context.file_contents_map, &q) {
                        let mut t = chars_of("File already in active context, skipping fetch: ");
                        append_str(&mut t, q.as_str());
                        note(context, &t);
                    } else {
                        match &contents[i] {
                            Some(c) => {
                                context.add_file_content(q.clone(), c.clone());
                                let mut t = chars_of("Fetched full source for: ");
                                append_str(&mut t, q.as_str());
                                note(context, &t);
                            },
                            None => {
                                let mut t = chars_of("Failed to read file: ");
                                append_str(&mut t, q.as_str());
                                note(context, &t);
                            },
                        }
                    }
                },
            }
            i += 1;
        }
    }

    /// Searches the summaries again within the turn: notes the keywords and
    /// the hits as printed (`rendered_hits`), then adds the summaries the hits
    /// bring (`loaded[i]` for the `i`-th hit; see `search_more_fold`).
    pub fn search_in_turn(
        context: &mut AgentContext,
        project_name: &str,
        keywords: &str,
        rendered_hits: &str,
        hits: &Vec<String>,
        loaded: &Vec<Result<String, String>>,
    )
        requires
            old(context).wf(),
            loaded@.len() == hits@.len(),
        ensures
            final(context).wf(),
            final(context).sources() == old(context).sources(),
            ({
                let (m, ts) = search_more_fold(project_name@, old(context).sources(), old(context).summaries(), hits@, loaded@, hits@.len() as int);
                &&& final(context).summaries() == m
                &&& string_views(final(context).thoughts@) == string_views(old(context).thoughts@)
                    + seq![
                        "Performing refined BM25F search with keywords: "@ + keywords@,
                        "Refined BM25F search returned: "@ + rendered_hits@,
                    ]
                    + ts
            }),
            final(context).turn_count == old(context).turn_count,
            final(context).max_turns == old(context).max_turns,
    {
        let ghost t0 = string_views(context.thoughts@);
        let mut a = chars_of("Performing refined BM25F search with keywords: ");
        append_str(&mut a, keywords);
        note(context, &a);
        let mut b = chars_of("Refined BM25F search returned: ");
        append_str(&mut b, rendered_hits);
        note(context, &b);
        assert(string_views(context.thoughts@) =~= t0 + seq![a@, b@]);
        take_search_hits(context, project_name, hits, loaded);
    }

    /// Gathers the relevant paths of the first search (see
    /// `agent::consolidate_search_results`; the model's suggested files are
    /// taken as it gave them) and notes how many there are.
    pub fn consolidate_initial_search(
        context: &mut AgentContext,
        project: &Project,
        suggested_vector_files: &Vec<String>,
        vector_result_paths: &Vec<String>,
        keyword_hits: &Vec<String>,
    ) -> (r: Vec<String>)
        ensures
            forall|x: Seq<char>| #[trigger] string_views(r@).contains(x) <==> (
                (exists|i: int| 0 <= i < suggested_vector_files@.len() && normalized_path(
                    suggested_vector_files@[i]@, project.file_descriptions@, keys(project.embeddings@), project.source_dir@) == Some(x))
                || (exists|i: int| 0 <= i < vector_result_paths@.len() && normalized_path(
                    vector_result_paths@[i]@, project.file_descriptions@, keys(project.embeddings@), project.source_dir@) == Some(x))
                || (exists|i: int| 0 <= i < keyword_hits@.len() && crate::agent::hit_target(keyword_hits@[i]@, project.name@) == Some(x))),
            forall|i: int, j: int| 0 <= i < j < r@.len() ==> r@[i]@ != r@[j]@,
            string_views(final(context).thoughts@) == string_views(old(context).thoughts@)
                + unnormalized_notes("Could not normalize suggested path from vector search: "@, suggested_vector_files@,
                    project.file_descriptions@, keys(project.embeddings@), project.source_dir@, suggested_vector_files@.len() as int)
                + unnormalized_notes("Could not normalize path from raw vector search results: "@, vector_result_paths@,
                    project.file_descriptions@, keys(project.embeddings@), project.source_dir@, vector_result_paths@.len() as int)
                + untargeted_notes(keyword_hits@, project.name@, keyword_hits@.len() as int)
                + seq!["Total unique relevant files identified across all searches: "@ + decimal(r@.len()) + "."@],
            same_files(*final(context), *old(context)),
    {
        let relevant = crate::agent::consolidate_search_results(project, vector_result_paths, keyword_hits, suggested_vector_files, &mut context.thoughts);
        let mut t = chars_of("Total unique relevant files identified across all searches: ");
        append_chars(&mut t, &decimal_exec(relevant.len()));
        append_str(&mut t, ".");
        note(context, &t);
        relevant
    }

    /// Prepares the answer's context as `agent_flow::prepare_generation` does;
    /// the last note counts all the descriptions the answer gets.
    pub fn prepare_turn_generation(file_descriptions: &Vec<(String, String)>, context: &mut AgentContext) -> (r: GenerationInput)
        ensures
            ({
                let sorted = sorted_by_key(old(context).file_contents_map@);
                let chosen = pick_summaries(sorted_by_key(old(context).yaml_summaries@), old(context).file_contents_map@, 10);
                &&& views(r.context_files@) == keys(sorted)
                &&& r.file_contents_for_llm@ == files_text(sorted)
                &&& crate::models::unique_keys(file_descriptions@) ==> crate::models::unique_keys(r.combined_descriptions@)
                &&& forall|k: Seq<char>| #[trigger] crate::models::lookup(r.combined_descriptions@, k) == match last_lookup(chosen, k) {
                    Some(v) => Some(v),
                    None => crate::models::lookup(file_descriptions@, k),
                }
                &&& string_views(final(context).thoughts@) == string_views(old(context).thoughts@) + seq![
                    "Final list of files with full source content: "@ + decimal(sorted.len()) + "."@,
                    if sorted.len() > 0 {
                        "Constructing file content string for the main LLM prompt."@
                    } else {
                        "No files selected for full content."@
                    },
                    "Combined project descriptions with "@ + decimal(r.combined_descriptions@.len())
                        + " filtered proactive descriptions for final LLM."@,
                ]
            }),
            same_files(*final(context), *old(context)),
    {
        let ghost t0 = string_views(context.thoughts@);
        let (r, n): (GenerationInput, usize) = generation_input(file_descriptions, context);
        let mut c = chars_of("Combined project descriptions with ");
        append_chars(&mut c, &decimal_exec(r.combined_descriptions.len()));
        append_str(&mut c, " filtered proactive descriptions for final LLM.");
        let ghost t1 = string_views(context.thoughts@);
        note(context, &c);
        assert(string_views(context.thoughts@) =~= t0 + (t1.subrange(t0.len() as int, t1.len() as int)).push(c@));
        r
    }
}

} // verus!
