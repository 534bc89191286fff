//! The steps of the agent between its calls to the model, the search and the
//! file system: what it shows the architect, how it reads the architect's
//! answer, and how each state's results change its context.
use vstd::prelude::*;
use crate::agent::{AgentContext, AgentState, distinct_keys, map_of, string_views};
use crate::chat::ChatMessage;
use crate::html::{unescape_html, unescape_html_spec};
use crate::imports::views;
use crate::agent::unnormalized_notes;
use crate::models::{Project, has_key, keys};
use crate::paths::{PathUtils, normalized_path};
use crate::pattern::opt_view;
use crate::json::{field_views, json_fields, key_views, opt_views, read_json_fields};
use crate::sort::{sort_by_key, sorted_by_key};
use crate::paths::{join_path, path_join};
use crate::text::{
    append_chars, append_str, chars_of, decimal, decimal_exec, ends_with, has_prefix_str,
    has_suffix, replace, replace_str, slice, starts_with, string_of, trim, trim_exec,
};

verus! {

// ------------------------------------------------------------------------
// Choosing summaries
// ------------------------------------------------------------------------
/// The summaries shown, taken in the given order: those whose full source is
/// not held, at most `max` of them.
pub open spec fn pick_summaries(sorted: Seq<(String, String)>, sources: Seq<(String, String)>, max: nat) -> Seq<(String, String)>
    decreases sorted.len(),
{
    if sorted.len() == 0 {
        seq![]
    } else {
        let rest = pick_summaries(sorted.drop_last(), sources, max);
        if !has_key(sources, sorted.last().0@) && rest.len() < max {
            rest.push(sorted.last())
        } else {
            rest
        }
    }
}

/// A copy of a list of pairs.
pub fn copy_pairs(v: &Vec<(String, String)>) -> (r: Vec<(String, String)>)
    ensures
        r@ == v@,
{
    let mut r: Vec<(String, String)> = Vec::new();
    let mut i: usize = 0;
    while i < v.len()
        invariant
            i <= v.len(),
            r@ == v@.take(i as int),
        decreases v.len() - i,
    {
        let p = (v[i].0.clone(), v[i].1.clone());
        r.push(p);
        assert(v@.take(i + 1) =~= v@.take(i as int).push(v@[i as int]));
        i += 1;
    }
    assert(v@.take(v.len() as int) =~= v@);
    r
}

/// The summaries to show, in path order: those whose full source is not
/// held, at most `max` of them.
pub fn select_summaries(summaries: &Vec<(String, String)>, sources: &Vec<(String, String)>, max: usize) -> (r: Vec<(String, String)>)
    ensures
        r@ == pick_summaries(sorted_by_key(summaries@), sources@, max as nat),
{
    let sorted = sort_by_key(copy_pairs(summaries));
    let ghost s = sorted@;
    let mut r: Vec<(String, String)> = Vec::new();
    let mut i: usize = 0;
    while i < sorted.len()
        invariant
            i <= sorted.len(),
            s == sorted@,
            r@ == pick_summaries(s.take(i as int), sources@, max as nat),
        decreases sorted.len() - i,
    {
        assert(s.take(i + 1).drop_last() =~= s.take(i as int));
        assert(s.take(i + 1).last() == s[i as int]);
        if !crate::models::contains_key(sources, &sorted[i].0) && r.len() < max {
            let p = (sorted[i].0.clone(), sorted[i].1.clone());
            r.push(p);
        }
        i += 1;
    }
    assert(s.take(sorted.len() as int) =~= s);
    r
}

proof fn lemma_pick_props(sorted: Seq<(String, String)>, sources: Seq<(String, String)>, max: nat)
    ensures
        pick_summaries(sorted, sources, max).len() <= max,
        forall|i: int| 0 <= i < pick_summaries(sorted, sources, max).len() ==> !has_key(
            sources,
            (#[trigger] pick_summaries(sorted, sources, max)[i]).0@,
        ) && sorted.contains(pick_summaries(sorted, sources, max)[i]),
    decreases sorted.len(),
{
    if sorted.len() > 0 {
        let d = sorted.drop_last();
        let rest = pick_summaries(d, sources, max);
        lemma_pick_props(d, sources, max);
        let p = pick_summaries(sorted, sources, max);
        assert forall|i: int| 0 <= i < p.len() implies !has_key(sources, (#[trigger] p[i]).0@)
            && sorted.contains(p[i]) by {
            if i < rest.len() {
                assert(p[i] == rest[i]);
                let k = choose|k: int| 0 <= k < d.len() && d[k] == rest[i];
                assert(sorted[k] == d[k]);
            } else {
                assert(p[i] == sorted.last());
                assert(sorted[sorted.len() - 1] == sorted.last());
            }
        }
    }
}

/// The summaries shown to the architect are at most `max`, never one of a
/// file whose full source is held, and each one of the given summaries.
pub proof fn law_selected_summaries(
    summaries: Seq<(String, String)>,
    sources: Seq<(String, String)>,
    max: nat,
)
    ensures
        pick_summaries(sorted_by_key(summaries), sources, max).len() <= max,
        forall|i: int| 0 <= i < pick_summaries(sorted_by_key(summaries), sources, max).len() ==> !has_key(
            sources,
            (#[trigger] pick_summaries(sorted_by_key(summaries), sources, max)[i]).0@,
        ) && summaries.contains(pick_summaries(sorted_by_key(summaries), sources, max)[i]),
{
    let sorted = sorted_by_key(summaries);
    let p = pick_summaries(sorted, sources, max);
    lemma_pick_props(sorted, sources, max);
    crate::sort::law_sort_by_key_orders(summaries);
    assert forall|i: int| 0 <= i < p.len() implies !has_key(sources, (#[trigger] p[i]).0@)
        && summaries.contains(p[i]) by {
        vstd::seq_lib::to_multiset_contains(sorted, p[i]);
        vstd::seq_lib::to_multiset_contains(summaries, p[i]);
    }
}

// ------------------------------------------------------------------------
// The architect's prompt
// ------------------------------------------------------------------------
/// `FILE: <path>\nDESCRIPTION:\n<description>\n\n` for each summary.
pub open spec fn yaml_maps_text(m: Seq<(String, String)>) -> Seq<char>
    decreases m.len(),
{
    if m.len() == 0 {
        seq![]
    } else {
        yaml_maps_text(m.drop_last()) + "FILE: "@ + m.last().0@ + "\nDESCRIPTION:\n"@ + m.last().1@ + "\n\n"@
    }
}

/// `FILE: <path>\nCONTENT:\n` and the source in a code fence, for each file.
pub open spec fn code_files_text(m: Seq<(String, String)>) -> Seq<char>
    decreases m.len(),
{
    if m.len() == 0 {
        seq![]
    } else {
        code_files_text(m.drop_last()) + "FILE: "@ + m.last().0@ + "\nCONTENT:\n```\n"@ + m.last().1@ + "\n```\n\n"@
    }
}

/// The fixed opening of the architect's prompt.
pub open spec fn architect_intro() -> Seq<char> {
    "You are an AI architect assistant. Your goal is to decide the best next step to answer a user's request, given the available context.\nYou have access to high-level YAML summaries of project files ('YAML Maps') and full source code of a few 'Active Code Files'.\n\n"@
}

/// The fixed instructions that close the architect's prompt.
pub open spec fn architect_instructions() -> Seq<char> {
    "--- Your Decision ---\nBased on the above, decide your next action. You MUST respond with a JSON object. No conversational text.\nThe JSON structure should be:\n{\n  \"action\": \"GENERATE\" | \"FETCH_SOURCE\" | \"SEARCH_MORE\",\n  \"reason\": \"A brief explanation for your decision.\",\n  \"paths\": [\"path/to/file1.rs\", \"path/to/file2.rs\"], // ONLY if action is FETCH_SOURCE\n  \"keywords\": \"space separated keywords for new search\" // ONLY if action is SEARCH_MORE\n}\n\nAvailable Actions:\n- `GENERATE`: You have sufficient context to directly answer the user's latest message.\n- `FETCH_SOURCE`: You need the full source code for specific files whose YAML summaries are available. Provide a list of relative file paths (e.g., 'src/models.rs') in the 'paths' array. Only select files whose YAML maps are available.\n- `SEARCH_MORE`: You need to broaden or refine the search for YAML maps. Provide a new set of space-separated keywords in the 'keywords' field.\n\nRemember, your response MUST be a single JSON object. Start with '{' and end with '}'.\n"@
}

/// The prompt that asks the architect for its next action: the request, the
/// summaries and the full sources held, and the answer format.
pub open spec fn architect_prompt_text(
    initial_query: Seq<char>,
    user_message: Seq<char>,
    yaml_maps: Seq<(String, String)>,
    code_files: Seq<(String, String)>,
) -> Seq<char> {
    architect_intro() + "Initial User Query: \""@ + initial_query + "\"\n"@ + "User's Latest Message: \""@
        + user_message + "\"\n\n"@ + (if yaml_maps.len() > 0 {
        "--- YAML Maps (High-Level Descriptions) ---\n"@ + yaml_maps_text(yaml_maps)
    } else {
        seq![]
    }) + (if code_files.len() > 0 {
        "--- Active Code Files (Full Source) ---\n"@ + code_files_text(code_files)
    } else {
        seq![]
    }) + architect_instructions()
}

/// The prompt that asks the architect for its next action.
pub fn architect_prompt(
    initial_query: &str,
    user_message_content: &str,
    current_yaml_maps: &Vec<(String, String)>,
    active_code_files: &Vec<(String, String)>,
) -> (r: String)
    ensures
        r@ == architect_prompt_text(initial_query@, user_message_content@, current_yaml_maps@, active_code_files@),
{
    let mut p = chars_of("You are an AI architect assistant. Your goal is to decide the best next step to answer a user's request, given the available context.\nYou have access to high-level YAML summaries of project files ('YAML Maps') and full source code of a few 'Active Code Files'.\n\n");
    append_str(&mut p, "Initial User Query: \"");
    append_str(&mut p, initial_query);
    append_str(&mut p, "\"\n");
    append_str(&mut p, "User's Latest Message: \"");
    append_str(&mut p, user_message_content);
    append_str(&mut p, "\"\n\n");
    let ghost head = p@;
    if current_yaml_maps.len() > 0 {
        append_str(&mut p, "--- YAML Maps (High-Level Descriptions) ---\n");
        let ghost h2 = p@;
        let mut i: usize = 0;
        while i < current_yaml_maps.len()
            invariant
                i <= current_yaml_maps.len(),
                p@ == h2 + yaml_maps_text(current_yaml_maps@.take(i as int)),
            decreases current_yaml_maps.len() - i,
        {
            assert(current_yaml_maps@.take(i + 1).drop_last() =~= current_yaml_maps@.take(i as int));
            assert(current_yaml_maps@.take(i + 1).last() == current_yaml_maps@[i as int]);
            append_str(&mut p, "FILE: ");
            append_str(&mut p, current_yaml_maps[i].0.as_str());
            append_str(&mut p, "\nDESCRIPTION:\n");
            append_str(&mut p, current_yaml_maps[i].1.as_str());
            append_str(&mut p, "\n\n");
            i += 1;
        }
        assert(current_yaml_maps@.take(current_yaml_maps.len() as int) =~= current_yaml_maps@);
    }
    let ghost mid = p@;
    assert(mid == head + (if current_yaml_maps@.len() > 0 {
        "--- YAML Maps (High-Level Descriptions) ---\n"@ + yaml_maps_text(current_yaml_maps@)
    } else {
        seq![]
    }));
    if active_code_files.len() > 0 {
        append_str(&mut p, "--- Active Code Files (Full Source) ---\n");
        let ghost h3 = p@;
        let mut j: usize = 0;
        while j < active_code_files.len()
            invariant
                j <= active_code_files.len(),
                p@ == h3 + code_files_text(active_code_files@.take(j as int)),
            decreases active_code_files.len() - j,
        {
            assert(active_code_files@.take(j + 1).drop_last() =~= active_code_files@.take(j as int));
            assert(active_code_files@.take(j + 1).last() == active_code_files@[j as int]);
            append_str(&mut p, "FILE: ");
            append_str(&mut p, active_code_files[j].0.as_str());
            append_str(&mut p, "\nCONTENT:\n```\n");
            append_str(&mut p, active_code_files[j].1.as_str());
            append_str(&mut p, "\n```\n\n");
            j += 1;
        }
        assert(active_code_files@.take(active_code_files.len() as int) =~= active_code_files@);
    }
    append_str(&mut p, "--- Your Decision ---\nBased on the above, decide your next action. You MUST respond with a JSON object. No conversational text.\nThe JSON structure should be:\n{\n  \"action\": \"GENERATE\" | \"FETCH_SOURCE\" | \"SEARCH_MORE\",\n  \"reason\": \"A brief explanation for your decision.\",\n  \"paths\": [\"path/to/file1.rs\", \"path/to/file2.rs\"], // ONLY if action is FETCH_SOURCE\n  \"keywords\": \"space separated keywords for new search\" // ONLY if action is SEARCH_MORE\n}\n\nAvailable Actions:\n- `GENERATE`: You have sufficient context to directly answer the user's latest message.\n- `FETCH_SOURCE`: You need the full source code for specific files whose YAML summaries are available. Provide a list of relative file paths (e.g., 'src/models.rs') in the 'paths' array. Only select files whose YAML maps are available.\n- `SEARCH_MORE`: You need to broaden or refine the search for YAML maps. Provide a new set of space-separated keywords in the 'keywords' field.\n\nRemember, your response MUST be a single JSON object. Start with '{' and end with '}'.\n");
    string_of(&p)
}

// ------------------------------------------------------------------------
// The architect's answer
// ------------------------------------------------------------------------
/// A trimmed answer whose code fence cannot be taken off: it starts and ends
/// with three backticks that overlap.
pub open spec fn fence_overlaps(t: Seq<char>) -> bool {
    starts_with(t, "```"@) && ends_with(t, "```"@) && t.len() < 6
}

/// A trimmed answer without the code fence around it (```` ```json ```` or
/// ```` ``` ````), trimmed again.
pub open spec fn unfenced(t: Seq<char>) -> Seq<char> {
    if starts_with(t, "```json"@) && ends_with(t, "```"@) {
        trim(t.subrange(7, t.len() - 3))
    } else if starts_with(t, "```"@) && ends_with(t, "```"@) {
        trim(t.subrange(3, t.len() - 3))
    } else {
        t
    }
}

/// The JSON text of an answer: trimmed, out of its code fence, unescaped.
pub open spec fn reply_json_text(response: Seq<char>) -> Seq<char> {
    unescape_html_spec(unfenced(trim(response)))
}

/// The JSON text of a model's answer.
pub fn reply_json(response: &str) -> (r: String)
    requires
        !fence_overlaps(trim(response@)),
    ensures
        r@ == reply_json_text(response@),
{
    let rv = chars_of(response);
    let t = trim_exec(&rv);
    let fence = chars_of("```");
    proof {
        reveal_strlit("```");
        reveal_strlit("```json");
    }
    let inner = if has_prefix_str(&t, "```json") && has_suffix(&t, &fence) {
        assert(t.len() >= 10) by {
            assert(t@.take(7)[6] == 'n');
            assert(t@[6] == 'n');
            if t.len() < 10 {
                assert(t@.skip(t.len() - 3)[6 - (t.len() - 3)] == '`');
            }
        }
        let s = slice(&t, 7, t.len() - 3);
        trim_exec(&s)
    } else if has_prefix_str(&t, "```") && has_suffix(&t, &fence) {
        let s = slice(&t, 3, t.len() - 3);
        trim_exec(&s)
    } else {
        t
    };
    unescape_html(string_of(&inner))
}

/// What the architect's JSON answer holds.
pub struct ArchitectView {
    pub action: Option<Seq<char>>,
    pub reason: Option<Seq<char>>,
    pub paths: Option<Seq<Option<Seq<char>>>>,
    pub keywords: Option<Seq<char>>,
    pub rendered: Seq<char>,
}

/// The architect's JSON answer: each field that is a string (for `paths`,
/// each array element that is one), and how the parsed value prints.
pub struct ArchitectDecision {
    pub action: Option<String>,
    pub reason: Option<String>,
    pub paths: Option<Vec<Option<String>>>,
    pub keywords: Option<String>,
    /// The parsed JSON value as `{:?}` prints it.
    pub rendered: String,
}

impl ArchitectDecision {
    /// What the answer holds.
    pub open spec fn view_decision(&self) -> ArchitectView {
        ArchitectView {
            action: opt_view(self.action),
            reason: opt_view(self.reason),
            paths: match self.paths {
                Some(p) => Some(opt_views(p@)),
                None => None,
            },
            keywords: opt_view(self.keywords),
            rendered: self.rendered@,
        }
    }
}

/// The keys read from the architect's answer.
pub open spec fn architect_keys() -> Seq<Seq<char>> {
    seq!["action"@, "reason"@, "paths"@, "keywords"@]
}

/// What `serde_json` reads from a text as the architect's fields, or the
/// message of its parse error.
pub open spec fn architect_json(text: Seq<char>) -> Result<ArchitectView, Seq<char>> {
    match json_fields(text, architect_keys()) {
        Ok((fs, d)) => Ok(
            ArchitectView {
                action: fs[0].text,
                reason: fs[1].text,
                paths: fs[2].texts,
                keywords: fs[3].text,
                rendered: d,
            },
        ),
        Err(e) => Err(e),
    }
}

/// The architect's fields read from a JSON text, or the parse error's message.
fn parse_architect_json(text: &str) -> (r: Result<ArchitectDecision, String>)
    ensures
        match r {
            Ok(d) => architect_json(text@) == Ok::<ArchitectView, Seq<char>>(d.view_decision()),
            Err(e) => architect_json(text@) == Err::<ArchitectView, Seq<char>>(e@),
        },
{
    let keys = vec!["action", "reason", "paths", "keywords"];
    assert(key_views(keys@) =~= architect_keys());
    match read_json_fields(text, &keys) {
        Err(e) => Err(e),
        Ok((fs, rendered)) => {
            let ghost v = field_views(fs@);
            let mut fs = fs;
            let f3 = fs.pop().unwrap();
            let f2 = fs.pop().unwrap();
            let f1 = fs.pop().unwrap();
            let f0 = fs.pop().unwrap();
            assert(v[0] == f0.view_field() && v[1] == f1.view_field() && v[2] == f2.view_field() && v[3] == f3.view_field());
            Ok(ArchitectDecision { action: f0.text, reason: f1.text, paths: f2.texts, keywords: f3.text, rendered })
        },
    }
}

/// The architect's decision read from its answer, or the parse error:
/// `Failed to parse Architect LLM's JSON response: <error> - Original
/// response: <json text>`.
pub fn parse_architect_reply(response: &str) -> (r: Result<ArchitectDecision, String>)
    requires
        !fence_overlaps(trim(response@)),
    ensures
        match architect_json(reply_json_text(response@)) {
            Ok(v) => r matches Ok(d) && d.view_decision() == v,
            Err(e) => r matches Err(m) && m@ == "Failed to parse Architect LLM's JSON response: "@ + e
                + " - Original response: "@ + reply_json_text(response@),
        },
{
    let text = reply_json(response);
    match parse_architect_json(text.as_str()) {
        Ok(d) => Ok(d),
        Err(e) => {
            let mut m = chars_of("Failed to parse Architect LLM's JSON response: ");
            append_str(&mut m, e.as_str());
            append_str(&mut m, " - Original response: ");
            append_str(&mut m, text.as_str());
            Err(string_of(&m))
        },
    }
}

// ------------------------------------------------------------------------
// Thoughts
// ------------------------------------------------------------------------
/// The context with nothing changed but the thoughts.
pub open spec fn same_files(a: AgentContext, b: AgentContext) -> bool {
    &&& a.file_contents_map == b.file_contents_map
    &&& a.yaml_summaries == b.yaml_summaries
    &&& a.turn_count == b.turn_count
    &&& a.max_turns == b.max_turns
}

pub(crate) fn note(context: &mut AgentContext, t: &Vec<char>)
    ensures
        string_views(final(context).thoughts@) == string_views(old(context).thoughts@).push(t@),
        same_files(*final(context), *old(context)),
{
    let ghost before = context.thoughts@;
    context.add_thought(string_of(t));
    assert(string_views(context.thoughts@) =~= string_views(before).push(t@));
}

pub(crate) fn note_str(context: &mut AgentContext, t: &str)
    ensures
        string_views(final(context).thoughts@) == string_views(old(context).thoughts@).push(t@),
        same_files(*final(context), *old(context)),
{
    note(context, &chars_of(t));
}

fn push_note(thoughts: &mut Vec<String>, t: &Vec<char>)
    ensures
        string_views(final(thoughts)@) == string_views(old(thoughts)@).push(t@),
{
    let ghost before = thoughts@;
    thoughts.push(string_of(t));
    assert(string_views(thoughts@) =~= string_views(before).push(t@));
}

// ------------------------------------------------------------------------
// Architect turns
// ------------------------------------------------------------------------
/// Starts an architect turn: counts it, and when the allowed turns are used
/// up moves on to answering (`Some(ReadyToGenerate)`); otherwise notes the
/// turn's number and gives `None`.
pub fn begin_architect_turn(context: &mut AgentContext) -> (r: Option<AgentState>)
    requires
        old(context).turn_count < usize::MAX,
    ensures
        final(context).turn_count == old(context).turn_count + 1,
        final(context).file_contents_map == old(context).file_contents_map,
        final(context).yaml_summaries == old(context).yaml_summaries,
        final(context).max_turns == old(context).max_turns,
        if final(context).turn_count >= old(context).max_turns {
            &&& r matches Some(s) && s is ReadyToGenerate
            &&& string_views(final(context).thoughts@) == string_views(old(context).thoughts@).push(
                "Warning: Reached maximum architect turns ("@ + decimal(old(context).max_turns as nat)
                    + "). Forcing generation."@)
        } else {
            &&& r is None
            &&& string_views(final(context).thoughts@) == string_views(old(context).thoughts@).push(
                "--- Architect Turn "@ + decimal(final(context).turn_count as nat) + " ---"@)
        },
{
    if context.increment_turn() {
        return Some(AgentState::ReadyToGenerate);
    }
    let mut t = chars_of("--- Architect Turn ");
    let d = decimal_exec(context.turn_count);
    append_chars(&mut t, &d);
    append_str(&mut t, " ---");
    note(context, &t);
    None
}

/// Chooses the summaries to show the architect (in path order, without the
/// files whose full source is held, at most thirty) and notes how many, then
/// notes that the architect is asked.
pub fn prepare_architect_request(context: &mut AgentContext) -> (r: Vec<(String, String)>)
    ensures
        r@ == pick_summaries(sorted_by_key(old(context).yaml_summaries@), old(context).file_contents_map@, 30),
        string_views(final(context).thoughts@) == string_views(old(context).thoughts@)
            + seq![
                "Refined proactive descriptions for Architect to "@ + decimal(r@.len()) + " files (not already full source)."@,
                "Requesting Architect LLM decision on next steps."@,
            ],
        same_files(*final(context), *old(context)),
{
    let r = select_summaries(&context.yaml_summaries, &context.file_contents_map, 30);
    let mut t = chars_of("Refined proactive descriptions for Architect to ");
    let d = decimal_exec(r.len());
    append_chars(&mut t, &d);
    append_str(&mut t, " files (not already full source).");
    let ghost t0 = string_views(context.thoughts@);
    note(context, &t);
    note_str(context, "Requesting Architect LLM decision on next steps.");
    proof {
        reveal_strlit("Requesting Architect LLM decision on next steps.");
    }
    assert(string_views(context.thoughts@) =~= t0 + seq![t@, "Requesting Architect LLM decision on next steps."@]);
    r
}

/// What the agent does next, as values.
pub enum Step {
    Fetch(Seq<Seq<char>>),
    Search(Seq<char>),
    Generate,
}

/// The next step a state stands for.
pub open spec fn step_of(s: AgentState) -> Option<Step> {
    match s {
        AgentState::FetchingSource(p) => Some(Step::Fetch(views(p@))),
        AgentState::SearchingMore(k) => Some(Step::Search(k@)),
        AgentState::ReadyToGenerate => Some(Step::Generate),
        _ => None,
    }
}

/// The entries of a list that are strings.
pub open spec fn present(ps: Seq<Option<Seq<char>>>) -> Seq<Seq<char>>
    decreases ps.len(),
{
    if ps.len() == 0 {
        seq![]
    } else {
        present(ps.drop_last()) + match ps.last() {
            Some(p) => seq![p],
            None => seq![],
        }
    }
}

/// The thoughts noted on an architect's answer and the step (or error) it leads to.
///
/// Without an action the answer is refused. `FETCH_SOURCE` needs a `paths`
/// array and fetches its string entries (none: answer now); `SEARCH_MORE`
/// needs a `keywords` string and searches with it (blank: answer now);
/// `GENERATE` and any other action answer now.
pub open spec fn decided(d: ArchitectView) -> (Seq<Seq<char>>, Result<Step, Seq<char>>) {
    let t0 = seq!["Architect decision: "@ + d.rendered];
    match d.action {
        None => (t0, Err("Architect decision missing 'action' field or not a string."@)),
        Some(a) => {
            let reason = match d.reason {
                Some(r) => r,
                None => "No reason provided."@,
            };
            let t1 = t0.push("Architect Reason: "@ + reason);
            if a == "FETCH_SOURCE"@ {
                let t2 = t1.push("Architect decided to FETCH_SOURCE."@);
                match d.paths {
                    None => (t2, Err("FETCH_SOURCE action requires 'paths' array."@)),
                    Some(ps) => if present(ps).len() == 0 {
                        (t2.push("Warning: FETCH_SOURCE with empty paths. Proceeding to GENERATE."@), Ok(Step::Generate))
                    } else {
                        (t2, Ok(Step::Fetch(present(ps))))
                    },
                }
            } else if a == "SEARCH_MORE"@ {
                let t2 = t1.push("Architect decided to SEARCH_MORE."@);
                match d.keywords {
                    None => (t2, Err("SEARCH_MORE action requires 'keywords' string."@)),
                    Some(k) => if trim(k).len() == 0 {
                        (t2.push("Warning: SEARCH_MORE with empty keywords. Proceeding to GENERATE."@), Ok(Step::Generate))
                    } else {
                        (t2, Ok(Step::Search(k)))
                    },
                }
            } else if a == "GENERATE"@ {
                (t1.push("Architect decided to GENERATE directly."@), Ok(Step::Generate))
            } else {
                (t1.push("Architect returned unknown action: '"@ + a + "'. Defaulting to GENERATE."@), Ok(Step::Generate))
            }
        },
    }
}

fn present_paths(ps: &Vec<Option<String>>) -> (r: Vec<String>)
    ensures
        views(r@) == present(opt_views(ps@)),
{
    let mut r: Vec<String> = Vec::new();
    let mut i: usize = 0;
    while i < ps.len()
        invariant
            i <= ps.len(),
            views(r@) == present(opt_views(ps@).take(i as int)),
        decreases ps.len() - i,
    {
        assert(opt_views(ps@).take(i + 1).drop_last() =~= opt_views(ps@).take(i as int));
        assert(opt_views(ps@).take(i + 1).last() == opt_view(ps@[i as int]));
        match &ps[i] {
            Some(p) => {
                let ghost before = r@;
                r.push(p.clone());
                assert(views(r@) =~= views(before).push(p@));
            },
            None => {},
        }
        i += 1;
    }
    assert(opt_views(ps@).take(ps.len() as int) =~= opt_views(ps@));
    r
}

/// Notes the architect's answer and turns it into the next state.
pub fn apply_architect_decision(decision: &ArchitectDecision, context: &mut AgentContext) -> (r: Result<AgentState, String>)
    ensures
        string_views(final(context).thoughts@) == string_views(old(context).thoughts@) + decided(decision.view_decision()).0,
        same_files(*final(context), *old(context)),
        match decided(decision.view_decision()).1 {
            Ok(s) => r matches Ok(st) && step_of(st) == Some(s),
            Err(e) => r matches Err(m) && m@ == e,
        },
{
    let ghost t0 = string_views(context.thoughts@);
    let ghost dv = decision.view_decision();
    let mut t = chars_of("Architect decision: ");
    append_str(&mut t, decision.rendered.as_str());
    note(context, &t);
    let action = match &decision.action {
        None => {
            assert(string_views(context.thoughts@) =~= t0 + decided(dv).0);
            return Err(string_of(&chars_of("Architect decision missing 'action' field or not a string.")));
        },
        Some(a) => a,
    };
    let mut rt = chars_of("Architect Reason: ");
    match &decision.reason {
        Some(r) => append_str(&mut rt, r.as_str()),
        None => append_str(&mut rt, "No reason provided."),
    }
    note(context, &rt);
    let ghost t1 = string_views(context.thoughts@);
    assert(t1 =~= t0 + seq![t@, rt@]);
    let av = chars_of(action.as_str());
    if crate::text::eq_str(&av, "FETCH_SOURCE") {
        note_str(context, "Architect decided to FETCH_SOURCE.");
        let ps = match &decision.paths {
            None => {
                assert(string_views(context.thoughts@) =~= t0 + decided(dv).0);
                return Err(string_of(&chars_of("FETCH_SOURCE action requires 'paths' array.")));
            },
            Some(ps) => ps,
        };
        let paths = present_paths(ps);
        if paths.len() == 0 {
            note_str(context, "Warning: FETCH_SOURCE with empty paths. Proceeding to GENERATE.");
            assert(string_views(context.thoughts@) =~= t0 + decided(dv).0);
            return Ok(AgentState::ReadyToGenerate);
        }
        assert(string_views(context.thoughts@) =~= t0 + decided(dv).0);
        Ok(AgentState::FetchingSource(paths))
    } else if crate::text::eq_str(&av, "SEARCH_MORE") {
        note_str(context, "Architect decided to SEARCH_MORE.");
        let k = match &decision.keywords {
            None => {
                assert(string_views(context.thoughts@) =~= t0 + decided(dv).0);
                return Err(string_of(&chars_of("SEARCH_MORE action requires 'keywords' string.")));
            },
            Some(k) => k,
        };
        let kt = trim_exec(&chars_of(k.as_str()));
        if kt.len() == 0 {
            note_str(context, "Warning: SEARCH_MORE with empty keywords. Proceeding to GENERATE.");
            assert(string_views(context.thoughts@) =~= t0 + decided(dv).0);
            return Ok(AgentState::ReadyToGenerate);
        }
        assert(string_views(context.thoughts@) =~= t0 + decided(dv).0);
        Ok(AgentState::SearchingMore(k.clone()))
    } else if crate::text::eq_str(&av, "GENERATE") {
        note_str(context, "Architect decided to GENERATE directly.");
        assert(string_views(context.thoughts@) =~= t0 + decided(dv).0);
        Ok(AgentState::ReadyToGenerate)
    } else {
        let mut u = chars_of("Architect returned unknown action: '");
        append_chars(&mut u, &av);
        append_str(&mut u, "'. Defaulting to GENERATE.");
        note(context, &u);
        assert(string_views(context.thoughts@) =~= t0 + decided(dv).0);
        Ok(AgentState::ReadyToGenerate)
    }
}

// ------------------------------------------------------------------------
// Loading files
// ------------------------------------------------------------------------
/// A key is in the map of a list of pairs exactly when some pair has it.
pub proof fn lemma_has_key_dom(e: Seq<(String, String)>, k: Seq<char>)
    ensures
        map_of(e).dom().contains(k) == has_key(e, k),
{
}

/// The map of a list of pairs grows by a pair with a new key.
pub proof fn lemma_map_of_push(e: Seq<(String, String)>, x: (String, String))
    requires
        !has_key(e, x.0@),
    ensures
        map_of(e.push(x)) == map_of(e).insert(x.0@, x.1@),
{
    let f = e.push(x);
    assert forall|k: Seq<char>| #![auto] has_key(f, k) == (has_key(e, k) || k == x.0@) by {
        if has_key(f, k) {
            let w = choose|w: int| 0 <= w < f.len() && #[trigger] f[w].0@ == k;
            if w < e.len() {
                assert(e[w].0@ == k);
            }
        }
        if has_key(e, k) {
            let w = choose|w: int| 0 <= w < e.len() && #[trigger] e[w].0@ == k;
            assert(f[w].0@ == k);
        }
        if k == x.0@ {
            assert(f[e.len() as int].0@ == k);
        }
    }
    assert forall|k: Seq<char>| #![auto] has_key(f, k) implies map_of(f)[k] == map_of(e).insert(x.0@, x.1@)[k] by {
        crate::models::lemma_lookup_push(e, x.0, x.1, k);
    }
    assert(map_of(f) =~= map_of(e).insert(x.0@, x.1@));
}

/// The contents loaded for the first `n` paths: each path read is stored
/// with its content (a later read of the same path wins).
pub open spec fn loaded_map(paths: Seq<String>, contents: Seq<Option<String>>, n: int) -> Map<Seq<char>, Seq<char>>
    decreases n,
{
    if n <= 0 {
        Map::empty()
    } else {
        let m = loaded_map(paths, contents, n - 1);
        match contents[n - 1] {
            Some(c) => m.insert(paths[n - 1]@, c@),
            None => m,
        }
    }
}

/// Reads that agree wherever a path is listed twice.
pub open spec fn consistent_reads(paths: Seq<String>, contents: Seq<Option<String>>) -> bool {
    forall|i: int, j: int|
        0 <= i < paths.len() && 0 <= j < paths.len() && #[trigger] paths[i]@ == #[trigger] paths[j]@
            ==> opt_view(contents[i]) == opt_view(contents[j])
}

proof fn lemma_loaded_prefix(paths: Seq<String>, contents: Seq<Option<String>>, n: int)
    requires
        contents.len() == paths.len(),
        0 <= n <= paths.len(),
        consistent_reads(paths, contents),
    ensures
        forall|i: int| 0 <= i < n ==> (loaded_map(paths, contents, n).dom().contains(#[trigger] paths[i]@) <==> contents[i] is Some)
            && (contents[i] matches Some(c) ==> loaded_map(paths, contents, n)[paths[i]@] == c@),
        forall|k: Seq<char>| #[trigger] loaded_map(paths, contents, n).dom().contains(k) ==> exists|i: int| 0 <= i < n && paths[i]@ == k,
    decreases n,
{
    if n > 0 {
        lemma_loaded_prefix(paths, contents, n - 1);
        let m = loaded_map(paths, contents, n - 1);
        let p = paths[n - 1]@;
        assert forall|i: int| 0 <= i < n implies (loaded_map(paths, contents, n).dom().contains(#[trigger] paths[i]@) <==> contents[i] is Some)
            && (contents[i] matches Some(c) ==> loaded_map(paths, contents, n)[paths[i]@] == c@) by {
            if paths[i]@ == p {
                assert(opt_view(contents[i]) == opt_view(contents[n - 1]));
                if contents[n - 1] is None && i < n - 1 {
                    assert(!m.dom().contains(p));
                }
                if contents[n - 1] is None && m.dom().contains(p) {
                    let j = choose|j: int| 0 <= j < n - 1 && paths[j]@ == p;
                    assert(opt_view(contents[j]) == opt_view(contents[n - 1]));
                }
            }
        }
        assert forall|k: Seq<char>| #[trigger] loaded_map(paths, contents, n).dom().contains(k) implies exists|i: int| 0 <= i < n && paths[i]@ == k by {
            if k != p {
                assert(m.dom().contains(k));
                let j = choose|j: int| 0 <= j < n - 1 && paths[j]@ == k;
                assert(0 <= j < n && paths[j]@ == k);
            } else {
                assert(paths[n - 1]@ == k);
            }
        }
    }
}

/// Loading by path gives each path its own read: when a path listed twice
/// reads the same both times, the loaded map holds a path exactly when
/// reading it succeeded, with what was read, and holds no other path.
pub proof fn law_loaded_paths(paths: Seq<String>, contents: Seq<Option<String>>)
    requires
        contents.len() == paths.len(),
        consistent_reads(paths, contents),
    ensures
        forall|i: int| 0 <= i < paths.len() ==> (loaded_map(paths, contents, paths.len() as int).dom().contains(
            #[trigger] paths[i]@,
        ) <==> contents[i] is Some) && (contents[i] matches Some(c) ==> loaded_map(paths, contents, paths.len() as int)[paths[i]@]
            == c@),
        forall|k: Seq<char>| #[trigger] loaded_map(paths, contents, paths.len() as int).dom().contains(k) ==> exists|i: int|
            0 <= i < paths.len() && paths[i]@ == k,
{
    lemma_loaded_prefix(paths, contents, paths.len() as int);
}

/// `<prefix><path>` for each of the first `n` paths that could not be read.
pub open spec fn failed_notes(prefix: Seq<char>, paths: Seq<String>, contents: Seq<Option<String>>, n: int) -> Seq<Seq<char>>
    decreases n,
{
    if n <= 0 {
        seq![]
    } else {
        failed_notes(prefix, paths, contents, n - 1) + match contents[n - 1] {
            Some(_) => seq![],
            None => seq![prefix + paths[n - 1]@],
        }
    }
}

/// `Failed to read file: <path>` for each of the first `n` paths that could
/// not be read.
pub open spec fn failed_reads(paths: Seq<String>, contents: Seq<Option<String>>, n: int) -> Seq<Seq<char>> {
    failed_notes("Failed to read file: "@, paths, contents, n)
}

/// What was read for each path, by path; notes `<prefix><path>` for each
/// path that could not be read.
fn load_by_path(
    file_paths: &Vec<String>,
    contents: &Vec<Option<String>>,
    prefix: &str,
    thoughts: &mut Vec<String>,
) -> (r: Vec<(String, String)>)
    requires
        contents@.len() == file_paths@.len(),
    ensures
        distinct_keys(r@),
        map_of(r@) == loaded_map(file_paths@, contents@, file_paths@.len() as int),
        string_views(final(thoughts)@) == string_views(old(thoughts)@) + failed_notes(
            prefix@,
            file_paths@,
            contents@,
            file_paths@.len() as int,
        ),
{
    let mut r: Vec<(String, String)> = Vec::new();
    let ghost t0 = string_views(thoughts@);
    assert(map_of(r@) =~= Map::<Seq<char>, Seq<char>>::empty());
    let mut i: usize = 0;
    while i < file_paths.len()
        invariant
            i <= file_paths.len(),
            contents@.len() == file_paths@.len(),
            distinct_keys(r@),
            map_of(r@) == loaded_map(file_paths@, contents@, i as int),
            string_views(thoughts@) == t0 + failed_notes(prefix@, file_paths@, contents@, i as int),
        decreases file_paths.len() - i,
    {
        match &contents[i] {
            Some(c) => {
                crate::agent::map_insert(&mut r, file_paths[i].clone(), c.clone());
                assert(string_views(thoughts@) =~= t0 + failed_notes(prefix@, file_paths@, contents@, i + 1));
            },
            None => {
                let mut t = chars_of(prefix);
                append_str(&mut t, file_paths[i].as_str());
                push_note(thoughts, &t);
                assert(string_views(thoughts@) =~= t0 + failed_notes(prefix@, file_paths@, contents@, i + 1));
            },
        }
        i += 1;
    }
    r
}

/// The contents read for `file_paths` (`contents[i]` is what reading the
/// `i`-th path gave), by path; notes each path that could not be read.
pub fn load_file_contents(file_paths: &Vec<String>, contents: &Vec<Option<String>>, thoughts: &mut Vec<String>) -> (r: Vec<(String, String)>)
    requires
        contents@.len() == file_paths@.len(),
    ensures
        distinct_keys(r@),
        map_of(r@) == loaded_map(file_paths@, contents@, file_paths@.len() as int),
        string_views(final(thoughts)@) == string_views(old(thoughts)@) + failed_reads(file_paths@, contents@, file_paths@.len() as int),
{
    load_by_path(file_paths, contents, "Failed to read file: ", thoughts)
}

/// The summaries loaded for `file_paths` (`descriptions[i]` is the
/// description read from the `i`-th path's summary, if it could be read), by
/// path; notes `Failed to load YAML for: <path>` for each that could not.
pub fn load_yaml_summaries(file_paths: &Vec<String>, descriptions: &Vec<Option<String>>, thoughts: &mut Vec<String>) -> (r: Vec<(String, String)>)
    requires
        descriptions@.len() == file_paths@.len(),
    ensures
        distinct_keys(r@),
        map_of(r@) == loaded_map(file_paths@, descriptions@, file_paths@.len() as int),
        string_views(final(thoughts)@) == string_views(old(thoughts)@) + failed_notes(
            "Failed to load YAML for: "@,
            file_paths@,
            descriptions@,
            file_paths@.len() as int,
        ),
{
    load_by_path(file_paths, descriptions, "Failed to load YAML for: ", thoughts)
}

/// `After <what>: <n> files with full source, <m> YAML summaries.`
pub open spec fn held_counts(what: Seq<char>, sources: nat, summaries: nat) -> Seq<char> {
    "After "@ + what + ": "@ + decimal(sources) + " files with full source, "@ + decimal(summaries) + " YAML summaries."@
}

fn note_counts(context: &mut AgentContext, what: &str)
    ensures
        string_views(final(context).thoughts@) == string_views(old(context).thoughts@).push(
            held_counts(what@, old(context).file_contents_map@.len(), old(context).yaml_summaries@.len())),
        same_files(*final(context), *old(context)),
{
    let mut t = chars_of("After ");
    append_str(&mut t, what);
    append_str(&mut t, ": ");
    append_chars(&mut t, &decimal_exec(context.file_contents_map.len()));
    append_str(&mut t, " files with full source, ");
    append_chars(&mut t, &decimal_exec(context.yaml_summaries.len()));
    append_str(&mut t, " YAML summaries.");
    note(context, &t);
}

/// Takes in the full sources fetched for the architect: `paths` are the
/// requested files and `contents[i]` what reading the `i`-th gave. Notes the
/// request, each file that could not be read, and what is held afterwards;
/// each file read is held with its source and no longer as a summary. The
/// architect decides next.
pub fn handle_fetch_source(context: &mut AgentContext, paths: &Vec<String>, contents: &Vec<Option<String>>) -> (r: AgentState)
    requires
        old(context).wf(),
        contents@.len() == paths@.len(),
    ensures
        r is ArchitectDecision,
        final(context).wf(),
        ({
            let loaded = loaded_map(paths@, contents@, paths@.len() as int);
            &&& final(context).sources() == old(context).sources().union_prefer_right(loaded)
            &&& final(context).summaries() == old(context).summaries().remove_keys(loaded.dom())
            &&& string_views(final(context).thoughts@) == string_views(old(context).thoughts@)
                + seq!["--- FETCH_SOURCE: "@ + decimal(paths@.len()) + " files ---"@]
                + failed_reads(paths@, contents@, paths@.len() as int)
                + seq![held_counts("FETCH_SOURCE"@, final(context).file_contents_map@.len(), final(context).yaml_summaries@.len())]
        }),
        final(context).turn_count == old(context).turn_count,
        final(context).max_turns == old(context).max_turns,
{
    let ghost t0 = string_views(context.thoughts@);
    let ghost src0 = context.sources();
    let ghost sum0 = context.summaries();
    let mut t = chars_of("--- FETCH_SOURCE: ");
    append_chars(&mut t, &decimal_exec(paths.len()));
    append_str(&mut t, " files ---");
    note(context, &t);
    let loaded = load_file_contents(paths, contents, &mut context.thoughts);
    let ghost t1 = string_views(context.thoughts@);
    let ghost lm = loaded_map(paths@, contents@, paths@.len() as int);
    let mut i: usize = 0;
    assert(map_of(loaded@.take(0)) =~= Map::<Seq<char>, Seq<char>>::empty());
    assert(src0.union_prefer_right(Map::<Seq<char>, Seq<char>>::empty()) =~= src0);
    assert(sum0.remove_keys(Set::<Seq<char>>::empty()) =~= sum0);
    while i < loaded.len()
        invariant
            i <= loaded.len(),
            distinct_keys(loaded@),
            map_of(loaded@) == lm,
            context.wf(),
            context.sources() == src0.union_prefer_right(map_of(loaded@.take(i as int))),
            context.summaries() == sum0.remove_keys(map_of(loaded@.take(i as int)).dom()),
            string_views(context.thoughts@) == t1,
            context.turn_count == old(context).turn_count,
            context.max_turns == old(context).max_turns,
        decreases loaded.len() - i,
    {
        let ghost before = loaded@.take(i as int);
        assert(loaded@.take(i + 1) =~= before.push(loaded@[i as int]));
        assert(!has_key(before, loaded@[i as int].0@)) by {
            if has_key(before, loaded@[i as int].0@) {
                let w = choose|w: int| 0 <= w < before.len() && #[trigger] before[w].0@ == loaded@[i as int].0@;
                assert(loaded@[w].0@ == loaded@[i as int].0@);
            }
        }
        proof {
            lemma_map_of_push(before, loaded@[i as int]);
        }
        let ghost sv = context.sources();
        let ghost mv = context.summaries();
        let ghost th = context.thoughts;
        context.add_file_content(loaded[i].0.clone(), loaded[i].1.clone());
        assert(context.thoughts == th);
        assert(context.sources() =~= src0.union_prefer_right(map_of(loaded@.take(i + 1))));
        assert(context.summaries() =~= sum0.remove_keys(map_of(loaded@.take(i + 1)).dom()));
        i += 1;
    }
    assert(loaded@.take(loaded.len() as int) =~= loaded@);
    note_counts(context, "FETCH_SOURCE");
    proof {
        reveal_strlit("FETCH_SOURCE");
    }
    AgentState::ArchitectDecision
}

// ------------------------------------------------------------------------
// Searching again
// ------------------------------------------------------------------------
/// The summaries held and the thoughts noted after the first `n` hits of a
/// second keyword search. A hit names a summary file; its source path is
/// taken from it (or a note says it could not be); a file not yet held in
/// either form gets the summary loaded for it (`loaded[i]`), or a note with
/// the error.
pub open spec fn search_more_fold(
    project_name: Seq<char>,
    sources: Map<Seq<char>, Seq<char>>,
    summaries: Map<Seq<char>, Seq<char>>,
    hits: Seq<String>,
    loaded: Seq<Result<String, String>>,
    n: int,
) -> (Map<Seq<char>, Seq<char>>, Seq<Seq<char>>)
    decreases n,
{
    if n <= 0 {
        (summaries, seq![])
    } else {
        let (m, ts) = search_more_fold(project_name, sources, summaries, hits, loaded, n - 1);
        match crate::agent::hit_target(hits[n - 1]@, project_name) {
            None => (m, ts.push("Could not extract target path from YAML hit: "@ + hits[n - 1]@)),
            Some(t) => if sources.dom().contains(t) || m.dom().contains(t) {
                (m, ts)
            } else {
                match loaded[n - 1] {
                    Ok(d) => (m.insert(t, d@), ts.push("Added new YAML summary from refined search: "@ + t)),
                    Err(e) => (m, ts.push("Failed to parse YAML for refined BM25F result: "@ + t + ". Error: "@ + e@)),
                }
            },
        }
    }
}

/// Adds the summaries that the hits of a keyword search bring (see
/// `search_more_fold`) and notes each outcome.
pub(crate) fn take_search_hits(
    context: &mut AgentContext,
    project_name: &str,
    hits: &Vec<String>,
    loaded: &Vec<Result<String, String>>,
)
    requires
        old(context).wf(),
        loaded@.len() == hits@.len(),
    ensures
        final(context).wf(),
        final(context).sources() == old(context).sources(),
        ({
            let (m, ts) = search_more_fold(project_name@, old(context).sources(), old(context).summaries(), hits@, loaded@, hits@.len() as int);
            &&& final(context).summaries() == m
            &&& string_views(final(context).thoughts@) == string_views(old(context).thoughts@) + ts
        }),
        final(context).turn_count == old(context).turn_count,
        final(context).max_turns == old(context).max_turns,
{
    let ghost t1 = string_views(context.thoughts@);
    let ghost src0 = context.sources();
    let ghost sum0 = context.summaries();
    let mut i: usize = 0;
    while i < hits.len()
        invariant
            i <= hits.len(),
            loaded@.len() == hits@.len(),
            context.wf(),
            context.sources() == src0,
            ({
                let (m, ts) = search_more_fold(project_name@, src0, sum0, hits@, loaded@, i as int);
                &&& context.summaries() == m
                &&& string_views(context.thoughts@) == t1 + ts
            }),
            context.turn_count == old(context).turn_count,
            context.max_turns == old(context).max_turns,
        decreases hits.len() - i,
    {
        let ghost tv = string_views(context.thoughts@);
        match crate::agent::hit_target_path(hits[i].as_str(), project_name) {
            None => {
                let mut t = chars_of("Could not extract target path from YAML hit: ");
                append_str(&mut t, hits[i].as_str());
                note(context, &t);
                assert(string_views(context.thoughts@) =~= tv.push(t@));
            },
            Some(target) => {
                let held = crate::models::contains_key(&context.file_contents_map, &target)
                    || crate::models::contains_key(&context.yaml_summaries, &target);
                proof {
                    lemma_has_key_dom(context.file_contents_map@, target@);
                    lemma_has_key_dom(context.yaml_summaries@, target@);
                }
                if !held {
                    match &loaded[i] {
                        Ok(d) => {
                            context.add_yaml_summary(target.clone(), d.clone());
                            let mut t = chars_of("Added new YAML summary from refined search: ");
                            append_str(&mut t, target.as_str());
                            note(context, &t);
                            assert(string_views(context.thoughts@) =~= tv.push(t@));
                        },
                        Err(e) => {
                            let mut t = chars_of("Failed to parse YAML for refined BM25F result: ");
                            append_str(&mut t, target.as_str());
                            append_str(&mut t, ". Error: ");
                            append_str(&mut t, e.as_str());
                            note(context, &t);
                            assert(string_views(context.thoughts@) =~= tv.push(t@));
                        },
                    }
                }
            },
        }
        i += 1;
    }
}

/// Takes in the hits of a second keyword search (summary file paths, best
/// first) and the summary loaded for each (`loaded[i]`, the description or
/// the error). Notes the search and its number of hits, adds the summaries of
/// files not yet held, notes what is held afterwards; the architect decides
/// next.
pub fn handle_search_more(
    context: &mut AgentContext,
    project_name: &str,
    keywords: &str,
    hits: &Vec<String>,
    loaded: &Vec<Result<String, String>>,
) -> (r: AgentState)
    requires
        old(context).wf(),
        loaded@.len() == hits@.len(),
    ensures
        r is ArchitectDecision,
        final(context).wf(),
        final(context).sources() == old(context).sources(),
        ({
            let (m, ts) = search_more_fold(project_name@, old(context).sources(), old(context).summaries(), hits@, loaded@, hits@.len() as int);
            &&& final(context).summaries() == m
            &&& string_views(final(context).thoughts@) == string_views(old(context).thoughts@)
                + seq![
                    "--- SEARCH_MORE: '"@ + keywords@ + "' ---"@,
                    "Refined BM25F search returned "@ + decimal(hits@.len()) + " results."@,
                ]
                + ts
                + seq![held_counts("SEARCH_MORE"@, final(context).file_contents_map@.len(), final(context).yaml_summaries@.len())]
        }),
        final(context).turn_count == old(context).turn_count,
        final(context).max_turns == old(context).max_turns,
{
    let ghost t0 = string_views(context.thoughts@);
    let ghost src0 = context.sources();
    let ghost sum0 = context.summaries();
    let mut a = chars_of("--- SEARCH_MORE: '");
    append_str(&mut a, keywords);
    append_str(&mut a, "' ---");
    note(context, &a);
    let mut b = chars_of("Refined BM25F search returned ");
    append_chars(&mut b, &decimal_exec(hits.len()));
    append_str(&mut b, " results.");
    note(context, &b);
    let ghost t1 = string_views(context.thoughts@);
    assert(t1 =~= t0 + seq![a@, b@]);
    take_search_hits(context, project_name, hits, loaded);
    note_counts(context, "SEARCH_MORE");
    proof {
        reveal_strlit("SEARCH_MORE");
    }
    AgentState::ArchitectDecision
}

// ------------------------------------------------------------------------
// The final answer
// ------------------------------------------------------------------------
/// `--- FILE: <path> ---\n<source>\n\n` for each file.
pub open spec fn files_text(m: Seq<(String, String)>) -> Seq<char>
    decreases m.len(),
{
    if m.len() == 0 {
        seq![]
    } else {
        files_text(m.drop_last()) + "--- FILE: "@ + m.last().0@ + " ---\n"@ + m.last().1@ + "\n\n"@
    }
}

/// The value of the last pair with key `k`.
pub open spec fn last_lookup(s: Seq<(String, String)>, k: Seq<char>) -> Option<String>
    decreases s.len(),
{
    if s.len() == 0 {
        None
    } else if s.last().0@ == k {
        Some(s.last().1)
    } else {
        last_lookup(s.drop_last(), k)
    }
}

/// What the final answer is generated from.
pub struct GenerationInput {
    /// The files sent with full source, in path order.
    pub context_files: Vec<String>,
    /// Their sources, one block per file.
    pub file_contents_for_llm: String,
    /// The project's file descriptions with the chosen summaries put in.
    pub combined_descriptions: Vec<(String, String)>,
}

/// The final answer's context (see `prepare_generation`) and the number of
/// summaries chosen; notes all but the last step.
pub(crate) fn generation_input(file_descriptions: &Vec<(String, String)>, context: &mut AgentContext) -> (r: (GenerationInput, usize))
    ensures
        ({
            let sorted = sorted_by_key(old(context).file_contents_map@);
            let chosen = pick_summaries(sorted_by_key(old(context).yaml_summaries@), old(context).file_contents_map@, 10);
            &&& views(r.0.context_files@) == crate::models::keys(sorted)
            &&& r.0.file_contents_for_llm@ == files_text(sorted)
            &&& r.1 == chosen.len()
            &&& crate::models::unique_keys(file_descriptions@) ==> crate::models::unique_keys(r.0.combined_descriptions@)
            &&& forall|k: Seq<char>| #[trigger] crate::models::lookup(r.0.combined_descriptions@, k) == match last_lookup(chosen, k) {
                Some(v) => Some(v),
                None => crate::models::lookup(file_descriptions@, k),
            }
            &&& string_views(final(context).thoughts@) == string_views(old(context).thoughts@) + seq![
                "Final list of files with full source content: "@ + decimal(sorted.len()) + "."@,
                if sorted.len() > 0 {
                    "Constructing file content string for the main LLM prompt."@
                } else {
                    "No files selected for full content."@
                },
            ]
        }),
        same_files(*final(context), *old(context)),
{
    let ghost t0 = string_views(context.thoughts@);
    let sorted = sort_by_key(copy_pairs(&context.file_contents_map));
    let ghost sv = sorted@;
    let mut files: Vec<String> = Vec::new();
    let mut text: Vec<char> = Vec::new();
    let mut i: usize = 0;
    while i < sorted.len()
        invariant
            i <= sorted.len(),
            sv == sorted@,
            views(files@) == crate::models::keys(sv.take(i as int)),
            text@ == files_text(sv.take(i as int)),
        decreases sorted.len() - i,
    {
        assert(sv.take(i + 1).drop_last() =~= sv.take(i as int));
        assert(sv.take(i + 1).last() == sv[i as int]);
        let ghost fb = files@;
        files.push(sorted[i].0.clone());
        assert(views(files@) =~= views(fb).push(sv[i as int].0@));
        assert(crate::models::keys(sv.take(i + 1)) =~= crate::models::keys(sv.take(i as int)).push(sv[i as int].0@));
        append_str(&mut text, "--- FILE: ");
        append_str(&mut text, sorted[i].0.as_str());
        append_str(&mut text, " ---\n");
        append_str(&mut text, sorted[i].1.as_str());
        append_str(&mut text, "\n\n");
        i += 1;
    }
    assert(sv.take(sorted.len() as int) =~= sv);
    let mut t = chars_of("Final list of files with full source content: ");
    append_chars(&mut t, &decimal_exec(sorted.len()));
    append_str(&mut t, ".");
    note(context, &t);
    let ghost t1 = string_views(context.thoughts@);
    if sorted.len() > 0 {
        note_str(context, "Constructing file content string for the main LLM prompt.");
    } else {
        note_str(context, "No files selected for full content.");
    }
    let ghost t2 = string_views(context.thoughts@);
    let chosen = select_summaries(&context.yaml_summaries, &context.file_contents_map, 10);
    let mut combined = copy_pairs(file_descriptions);
    let mut j: usize = 0;
    while j < chosen.len()
        invariant
            j <= chosen.len(),
            crate::models::unique_keys(file_descriptions@) ==> crate::models::unique_keys(combined@),
            forall|k: Seq<char>| #[trigger] crate::models::lookup(combined@, k) == match last_lookup(chosen@.take(j as int), k) {
                Some(v) => Some(v),
                None => crate::models::lookup(file_descriptions@, k),
            },
        decreases chosen.len() - j,
    {
        assert(chosen@.take(j + 1).drop_last() =~= chosen@.take(j as int));
        assert(chosen@.take(j + 1).last() == chosen@[j as int]);
        let ghost cb = combined@;
        crate::models::upsert(&mut combined, chosen[j].0.clone(), chosen[j].1.clone());
        proof {
            if crate::models::unique_keys(file_descriptions@) {
                crate::models::lemma_upsert_unique(cb, combined@, chosen@[j as int].0@);
            }
        }
        j += 1;
    }
    assert(chosen@.take(chosen.len() as int) =~= chosen@);
    proof {
        reveal_strlit("Constructing file content string for the main LLM prompt.");
        reveal_strlit("No files selected for full content.");
    }
    assert(string_views(context.thoughts@) =~= t0 + seq![
        t@,
        if sv.len() > 0 {
            "Constructing file content string for the main LLM prompt."@
        } else {
            "No files selected for full content."@
        },
    ]);
    let n = chosen.len();
    (GenerationInput { context_files: files, file_contents_for_llm: string_of(&text), combined_descriptions: combined }, n)
}

/// Prepares the final answer's context: the files held with full source in
/// path order and their sources as text; up to ten summaries of other files
/// (in path order) put into the project's file descriptions. Notes each step.
pub fn prepare_generation(file_descriptions: &Vec<(String, String)>, context: &mut AgentContext) -> (r: GenerationInput)
    ensures
        ({
            let sorted = sorted_by_key(old(context).file_contents_map@);
            let chosen = pick_summaries(sorted_by_key(old(context).yaml_summaries@), old(context).file_contents_map@, 10);
            &&& views(r.context_files@) == crate::models::keys(sorted)
            &&& r.file_contents_for_llm@ == files_text(sorted)
            &&& forall|k: Seq<char>| #[trigger] crate::models::lookup(r.combined_descriptions@, k) == match last_lookup(chosen, k) {
                Some(v) => Some(v),
                None => crate::models::lookup(file_descriptions@, k),
            }
            &&& string_views(final(context).thoughts@) == string_views(old(context).thoughts@) + seq![
                "Final list of files with full source content: "@ + decimal(sorted.len()) + "."@,
                if sorted.len() > 0 {
                    "Constructing file content string for the main LLM prompt."@
                } else {
                    "No files selected for full content."@
                },
                "Combined project descriptions with "@ + decimal(chosen.len())
                    + " filtered proactive descriptions for final LLM."@,
            ]
        }),
        same_files(*final(context), *old(context)),
{
    let ghost t0 = string_views(context.thoughts@);
    let (r, n): (GenerationInput, usize) = generation_input(file_descriptions, context);
    let mut c = chars_of("Combined project descriptions with ");
    append_chars(&mut c, &decimal_exec(n));
    append_str(&mut c, " filtered proactive descriptions for final LLM.");
    let ghost t1 = string_views(context.thoughts@);
    note(context, &c);
    assert(string_views(context.thoughts@) =~= t0 + (t1.subrange(t0.len() as int, t1.len() as int)).push(c@));
    r
}

/// The message of the user that the final answer replies to, as sent to the
/// model: stamped with the current time, carrying the files sent in full, the
/// project's provider and model and the hidden context.
pub fn agent_user_message(
    content: &str,
    commit_hash: &Option<String>,
    context_files: &Vec<String>,
    provider: &String,
    model: &Option<String>,
    hidden_context: &Vec<String>,
) -> (m: ChatMessage)
    ensures
        m.role@ == "user"@,
        m.content@ == content@,
        !m.hidden,
        m.commit_hash == *commit_hash,
        m.timestamp is Some,
        m.context_files matches Some(f) && f@ == context_files@,
        m.provider == Some(*provider),
        m.model == *model,
        m.hidden_context matches Some(h) && h@ == hidden_context@,
        m.thoughts is None,
        m.id == 0,
        m.parent_id is None,
{
    ChatMessage {
        role: string_of(&chars_of("user")),
        content: string_of(&chars_of(content)),
        hidden: false,
        commit_hash: commit_hash.clone(),
        timestamp: Some(crate::chat::now_nanos()),
        context_files: Some(copy_strings(context_files)),
        provider: Some(provider.clone()),
        model: model.clone(),
        hidden_context: Some(copy_strings(hidden_context)),
        thoughts: None,
        id: 0,
        parent_id: None,
    }
}

/// The model's answer as a chat message: stamped with the current time,
/// carrying the files sent in full, the project's provider and model, the
/// hidden context and every thought noted on the way.
pub fn agent_model_message(
    content: String,
    commit_hash: &Option<String>,
    context_files: &Vec<String>,
    provider: &String,
    model: &Option<String>,
    hidden_context: &Vec<String>,
    thoughts: &Vec<String>,
) -> (m: ChatMessage)
    ensures
        m.role@ == "model"@,
        m.content == content,
        !m.hidden,
        m.commit_hash == *commit_hash,
        m.timestamp is Some,
        m.context_files matches Some(f) && f@ == context_files@,
        m.provider == Some(*provider),
        m.model == *model,
        m.hidden_context matches Some(h) && h@ == hidden_context@,
        m.thoughts matches Some(t) && t@ == thoughts@,
        m.id == 0,
        m.parent_id is None,
{
    ChatMessage {
        role: string_of(&chars_of("model")),
        content,
        hidden: false,
        commit_hash: commit_hash.clone(),
        timestamp: Some(crate::chat::now_nanos()),
        context_files: Some(copy_strings(context_files)),
        provider: Some(provider.clone()),
        model: model.clone(),
        hidden_context: Some(copy_strings(hidden_context)),
        thoughts: Some(copy_strings(thoughts)),
        id: 0,
        parent_id: None,
    }
}

/// A copy of a list of strings.
pub fn copy_strings(v: &Vec<String>) -> (r: Vec<String>)
    ensures
        r@ == v@,
{
    let mut r: Vec<String> = Vec::new();
    let mut i: usize = 0;
    while i < v.len()
        invariant
            i <= v.len(),
            r@ == v@.take(i as int),
        decreases v.len() - i,
    {
        r.push(v[i].clone());
        assert(v@.take(i + 1) =~= v@.take(i as int).push(v@[i as int]));
        i += 1;
    }
    assert(v@.take(v.len() as int) =~= v@);
    r
}

// ------------------------------------------------------------------------
// The first search
// ------------------------------------------------------------------------
/// Where the summary of a project path is looked for: in the project's
/// summary directory, named after the path with `/` turned into `*` and
/// `.yml` added.
pub open spec fn summary_location(project_dir: Seq<char>, path: Seq<char>) -> Seq<char> {
    path_join(project_dir, replace(path, "/"@, "*"@) + ".yml"@)
}

/// The state of filling the context after the first search: sources and
/// summaries held, and thoughts noted.
pub struct Populated {
    pub sources: Map<Seq<char>, Seq<char>>,
    pub summaries: Map<Seq<char>, Seq<char>>,
    pub thoughts: Seq<Seq<char>>,
}

/// The first pass over the first `n` relevant paths: each path the model
/// suggested gets its full source (`source_reads[i]`), or when that cannot
/// be read its summary (`yaml_reads[i]`); each outcome is noted.
pub open spec fn populate_suggested(
    relevant: Seq<String>,
    suggested: Seq<Seq<char>>,
    source_reads: Seq<Option<String>>,
    yaml_reads: Seq<Option<String>>,
    project_dir: Seq<char>,
    n: int,
) -> Populated
    decreases n,
{
    if n <= 0 {
        Populated { sources: Map::empty(), summaries: Map::empty(), thoughts: seq![] }
    } else {
        let st = populate_suggested(relevant, suggested, source_reads, yaml_reads, project_dir, n - 1);
        let p = relevant[n - 1]@;
        if !suggested.contains(p) {
            st
        } else {
            match source_reads[n - 1] {
                Some(c) => Populated {
                    sources: st.sources.insert(p, c@),
                    thoughts: st.thoughts.push("Added full source (from LLM vector suggestion): "@ + p),
                    ..st
                },
                None => {
                    let t = st.thoughts.push("Failed to read suggested file for full source: "@ + p + ". Trying YAML description."@);
                    match yaml_reads[n - 1] {
                        Some(d) => Populated {
                            summaries: st.summaries.insert(p, d@),
                            thoughts: t.push("Added YAML description (suggested source failed): "@ + p),
                            ..st
                        },
                        None => Populated {
                            thoughts: t.push("Failed to get YAML description for "@ + p + ": "@ + summary_location(project_dir, p)),
                            ..st
                        },
                    }
                },
            }
        }
    }
}

/// The second pass: every relevant path without full source gets its
/// summary (`yaml_reads[i]`), or a note that it could not be had.
pub open spec fn populate_others(
    start: Populated,
    relevant: Seq<String>,
    yaml_reads: Seq<Option<String>>,
    project_dir: Seq<char>,
    n: int,
) -> Populated
    decreases n,
{
    if n <= 0 {
        start
    } else {
        let st = populate_others(start, relevant, yaml_reads, project_dir, n - 1);
        let p = relevant[n - 1]@;
        if st.sources.dom().contains(p) {
            st
        } else {
            match yaml_reads[n - 1] {
                Some(d) => Populated { summaries: st.summaries.insert(p, d@), ..st },
                None => Populated {
                    thoughts: st.thoughts.push("Failed to get YAML description for "@ + p + ": "@ + summary_location(project_dir, p)),
                    ..st
                },
            }
        }
    }
}

/// Both passes.
pub open spec fn populated(
    relevant: Seq<String>,
    suggested: Seq<Seq<char>>,
    source_reads: Seq<Option<String>>,
    yaml_reads: Seq<Option<String>>,
    project_dir: Seq<char>,
) -> Populated {
    populate_others(
        populate_suggested(relevant, suggested, source_reads, yaml_reads, project_dir, relevant.len() as int),
        relevant,
        yaml_reads,
        project_dir,
        relevant.len() as int,
    )
}

fn summary_location_exec(project_dir: &str, path: &String) -> (r: Vec<char>)
    ensures
        r@ == summary_location(project_dir@, path@),
{
    let pv = chars_of(path.as_str());
    let mut name = replace_str(&pv, "/", "*");
    append_str(&mut name, ".yml");
    let ns = string_of(&name);
    chars_of(join_path(project_dir, ns.as_str()).as_str())
}

fn contains_string(v: &Vec<String>, x: &String) -> (r: bool)
    ensures
        r == views(v@).contains(x@),
{
    let mut i: usize = 0;
    while i < v.len()
        invariant
            i <= v.len(),
            forall|j: int| 0 <= j < i ==> v@[j]@ != x@,
        decreases v.len() - i,
    {
        if v[i].eq(x) {
            assert(views(v@)[i as int] == x@);
            return true;
        }
        i += 1;
    }
    assert(!views(v@).contains(x@)) by {
        if views(v@).contains(x@) {
            let j = choose|j: int| 0 <= j < views(v@).len() && views(v@)[j] == x@;
            assert(v@[j]@ == x@);
        }
    }
    false
}

/// Fills the context from the first search's relevant paths: files the
/// model suggested get their full source (or, failing that, their summary),
/// every other file without full source its summary; `source_reads[i]` and
/// `yaml_reads[i]` are what reading the `i`-th path's source and summary
/// gave. Notes each outcome.
pub fn populate_file_context(
    relevant: &Vec<String>,
    suggested: &Vec<String>,
    source_reads: &Vec<Option<String>>,
    yaml_reads: &Vec<Option<String>>,
    project_dir: &str,
    thoughts: &mut Vec<String>,
) -> (r: (Vec<(String, String)>, Vec<(String, String)>))
    requires
        source_reads@.len() == relevant@.len(),
        yaml_reads@.len() == relevant@.len(),
    ensures
        distinct_keys(r.0@),
        distinct_keys(r.1@),
        ({
            let p = populated(relevant@, views(suggested@), source_reads@, yaml_reads@, project_dir@);
            &&& map_of(r.0@) == p.sources
            &&& map_of(r.1@) == p.summaries
            &&& string_views(final(thoughts)@) == string_views(old(thoughts)@) + p.thoughts
        }),
{
    let ghost t0 = string_views(thoughts@);
    let ghost sug = views(suggested@);
    let mut contents: Vec<(String, String)> = Vec::new();
    let mut summaries: Vec<(String, String)> = Vec::new();
    assert(map_of(contents@) =~= Map::<Seq<char>, Seq<char>>::empty());
    assert(map_of(summaries@) =~= Map::<Seq<char>, Seq<char>>::empty());
    let mut i: usize = 0;
    while i < relevant.len()
        invariant
            i <= relevant.len(),
            source_reads@.len() == relevant@.len(),
            yaml_reads@.len() == relevant@.len(),
            sug == views(suggested@),
            distinct_keys(contents@),
            distinct_keys(summaries@),
            ({
                let p = populate_suggested(relevant@, sug, source_reads@, yaml_reads@, project_dir@, i as int);
                &&& map_of(contents@) == p.sources
                &&& map_of(summaries@) == p.summaries
                &&& string_views(thoughts@) == t0 + p.thoughts
            }),
        decreases relevant.len() - i,
    {
        let ghost tb = string_views(thoughts@);
        let p = &relevant[i];
        if contains_string(suggested, p) {
            match &source_reads[i] {
                Some(c) => {
                    crate::agent::map_insert(&mut contents, p.clone(), c.clone());
                    let mut t = chars_of("Added full source (from LLM vector suggestion): ");
                    append_str(&mut t, p.as_str());
                    push_note(thoughts, &t);
                },
                None => {
                    let mut t = chars_of("Failed to read suggested file for full source: ");
                    append_str(&mut t, p.as_str());
                    append_str(&mut t, ". Trying YAML description.");
                    push_note(thoughts, &t);
                    match &yaml_reads[i] {
                        Some(d) => {
                            crate::agent::map_insert(&mut summaries, p.clone(), d.clone());
                            let mut u = chars_of("Added YAML description (suggested source failed): ");
                            append_str(&mut u, p.as_str());
                            push_note(thoughts, &u);
                            assert(string_views(thoughts@) =~= tb.push(t@).push(u@));
                        },
                        None => {
                            let mut u = chars_of("Failed to get YAML description for ");
                            append_str(&mut u, p.as_str());
                            append_str(&mut u, ": ");
                            append_chars(&mut u, &summary_location_exec(project_dir, p));
                            push_note(thoughts, &u);
                            assert(string_views(thoughts@) =~= tb.push(t@).push(u@));
                        },
                    }
                },
            }
        }
        i += 1;
    }
    let ghost first = populate_suggested(relevant@, sug, source_reads@, yaml_reads@, project_dir@, relevant@.len() as int);
    let mut j: usize = 0;
    while j < relevant.len()
        invariant
            j <= relevant.len(),
            yaml_reads@.len() == relevant@.len(),
            distinct_keys(contents@),
            distinct_keys(summaries@),
            map_of(contents@) == first.sources,
            ({
                let p = populate_others(first, relevant@, yaml_reads@, project_dir@, j as int);
                &&& p.sources == first.sources
                &&& map_of(summaries@) == p.summaries
                &&& string_views(thoughts@) == t0 + p.thoughts
            }),
        decreases relevant.len() - j,
    {
        let p = &relevant[j];
        proof {
            lemma_has_key_dom(contents@, p@);
        }
        if !crate::models::contains_key(&contents, p) {
            match &yaml_reads[j] {
                Some(d) => {
                    crate::agent::map_insert(&mut summaries, p.clone(), d.clone());
                },
                None => {
                    let mut u = chars_of("Failed to get YAML description for ");
                    append_str(&mut u, p.as_str());
                    append_str(&mut u, ": ");
                    append_chars(&mut u, &summary_location_exec(project_dir, p));
                    push_note(thoughts, &u);
                },
            }
        }
        j += 1;
    }
    (contents, summaries)
}

/// The distinct normalized forms of the first `n` suggested paths, in order.
pub open spec fn normalized_set(
    paths: Seq<String>,
    fd: Seq<(String, String)>,
    ek: Seq<Seq<char>>,
    sd: Seq<char>,
    n: int,
) -> Seq<Seq<char>>
    decreases n,
{
    if n <= 0 {
        seq![]
    } else {
        let s = normalized_set(paths, fd, ek, sd, n - 1);
        match normalized_path(paths[n - 1]@, fd, ek, sd) {
            Some(q) => crate::agent::add_unique(s, q),
            None => s,
        }
    }
}

/// Starts using the first search's results: normalizes the paths the model
/// suggested (noting those that cannot be), notes the consolidation, gathers
/// the relevant paths of all searches and notes how many there are.
/// Gives the relevant paths and the normalized suggested paths.
pub fn start_initial_search(
    context: &mut AgentContext,
    project: &Project,
    suggested_vector_files: &Vec<String>,
    vector_result_paths: &Vec<String>,
    keyword_hits: &Vec<String>,
) -> (r: (Vec<String>, Vec<String>))
    ensures
        ({
            let fd = project.file_descriptions@;
            let ek = keys(project.embeddings@);
            let sd = project.source_dir@;
            let sug = normalized_set(suggested_vector_files@, fd, ek, sd, suggested_vector_files@.len() as int);
            &&& views(r.1@) == sug
            &&& forall|x: Seq<char>| #[trigger] views(r.0@).contains(x) <==> (
                (exists|i: int| 0 <= i < sug.len() && normalized_path(sug[i], fd, ek, sd) == Some(x))
                || (exists|i: int| 0 <= i < vector_result_paths@.len() && normalized_path(vector_result_paths@[i]@, fd, ek, sd) == Some(x))
                || (exists|i: int| 0 <= i < keyword_hits@.len() && crate::agent::hit_target(keyword_hits@[i]@, project.name@) == Some(x)))
            &&& forall|i: int, j: int| 0 <= i < j < r.0@.len() ==> r.0@[i]@ != r.0@[j]@
            &&& string_views(final(context).thoughts@) == string_views(old(context).thoughts@)
                + unnormalized_notes("Could not normalize suggested vector file path: "@, suggested_vector_files@, fd, ek, sd, suggested_vector_files@.len() as int)
                + seq!["Consolidating search results and populating file context."@]
                + unnormalized_notes("Could not normalize suggested path from vector search: "@, r.1@, fd, ek, sd, r.1@.len() as int)
                + unnormalized_notes("Could not normalize path from raw vector search results: "@, vector_result_paths@, fd, ek, sd, vector_result_paths@.len() as int)
                + crate::agent::untargeted_notes(keyword_hits@, project.name@, keyword_hits@.len() as int)
                + seq!["Total unique relevant files identified across all searches: "@ + decimal(r.0@.len()) + "."@]
        }),
        same_files(*final(context), *old(context)),
{
    let ghost t0 = string_views(context.thoughts@);
    let ghost fd = project.file_descriptions@;
    let ghost ek = keys(project.embeddings@);
    let ghost sd = project.source_dir@;
    let mut sug: Vec<String> = Vec::new();
    let mut i: usize = 0;
    while i < suggested_vector_files.len()
        invariant
            i <= suggested_vector_files.len(),
            fd == project.file_descriptions@,
            ek == keys(project.embeddings@),
            sd == project.source_dir@,
            views(sug@) == normalized_set(suggested_vector_files@, fd, ek, sd, i as int),
            forall|a: int, b: int| 0 <= a < b < sug@.len() ==> sug@[a]@ != sug@[b]@,
            string_views(context.thoughts@) == t0 + unnormalized_notes("Could not normalize suggested vector file path: "@, suggested_vector_files@, fd, ek, sd, i as int),
            same_files(*context, *old(context)),
        decreases suggested_vector_files.len() - i,
    {
        match PathUtils::normalize_project_path(suggested_vector_files[i].as_str(), project) {
            Some(n) => {
                crate::agent::push_unique(&mut sug, n);
                assert(views(sug@) == string_views(sug@));
            },
            None => {
                let mut t = chars_of("Could not normalize suggested vector file path: ");
                append_str(&mut t, suggested_vector_files[i].as_str());
                note(context, &t);
            },
        }
        i += 1;
    }
    note_str(context, "Consolidating search results and populating file context.");
    let relevant = crate::agent::consolidate_search_results(project, vector_result_paths, keyword_hits, &sug, &mut context.thoughts);
    let mut t = chars_of("Total unique relevant files identified across all searches: ");
    append_chars(&mut t, &decimal_exec(relevant.len()));
    append_str(&mut t, ".");
    note(context, &t);
    proof {
        reveal_strlit("Consolidating search results and populating file context.");
    }
    assert(views(relevant@) =~= string_views(relevant@));
    assert(views(sug@) =~= string_views(sug@));
    let ghost sg = normalized_set(suggested_vector_files@, fd, ek, sd, suggested_vector_files@.len() as int);
    assert forall|x: Seq<char>| #[trigger] views(relevant@).contains(x) <==> (
        (exists|i: int| 0 <= i < sg.len() && normalized_path(sg[i], fd, ek, sd) == Some(x))
        || (exists|i: int| 0 <= i < vector_result_paths@.len() && normalized_path(vector_result_paths@[i]@, fd, ek, sd) == Some(x))
        || (exists|i: int| 0 <= i < keyword_hits@.len() && crate::agent::hit_target(keyword_hits@[i]@, project.name@) == Some(x))) by {
        assert(string_views(relevant@).contains(x) == views(relevant@).contains(x));
        if exists|i: int| 0 <= i < sg.len() && normalized_path(sg[i], fd, ek, sd) == Some(x) {
            let i = choose|i: int| 0 <= i < sg.len() && normalized_path(sg[i], fd, ek, sd) == Some(x);
            assert(sug@[i]@ == sg[i]);
        }
        if exists|i: int| 0 <= i < sug@.len() && normalized_path(sug@[i]@, fd, ek, sd) == Some(x) {
            let i = choose|i: int| 0 <= i < sug@.len() && normalized_path(sug@[i]@, fd, ek, sd) == Some(x);
            assert(sug@[i]@ == sg[i]);
        }
    }
    (relevant, sug)
}

/// Finishes the first search: fills the context from the relevant paths
/// (see `populate_file_context`), holds what was read, notes what is held;
/// the architect decides next.
pub fn finish_initial_search(
    context: &mut AgentContext,
    relevant: &Vec<String>,
    suggested: &Vec<String>,
    source_reads: &Vec<Option<String>>,
    yaml_reads: &Vec<Option<String>>,
    project_dir: &str,
) -> (r: AgentState)
    requires
        old(context).wf(),
        source_reads@.len() == relevant@.len(),
        yaml_reads@.len() == relevant@.len(),
    ensures
        r is ArchitectDecision,
        final(context).wf(),
        ({
            let p = populated(relevant@, views(suggested@), source_reads@, yaml_reads@, project_dir@);
            let srcs = old(context).sources().union_prefer_right(p.sources);
            &&& final(context).sources() == srcs
            &&& final(context).summaries() == old(context).summaries().remove_keys(p.sources.dom())
                .union_prefer_right(p.summaries.remove_keys(srcs.dom()))
            &&& string_views(final(context).thoughts@) == string_views(old(context).thoughts@) + p.thoughts
                + seq!["Currently have "@ + decimal(final(context).file_contents_map@.len()) + " files with full source and "@
                    + decimal(final(context).yaml_summaries@.len()) + " YAML summaries."@]
        }),
        final(context).turn_count == old(context).turn_count,
        final(context).max_turns == old(context).max_turns,
{
    let ghost t0 = string_views(context.thoughts@);
    let ghost src0 = context.sources();
    let ghost sum0 = context.summaries();
    let (contents, summaries) = populate_file_context(relevant, suggested, source_reads, yaml_reads, project_dir, &mut context.thoughts);
    let ghost t1 = string_views(context.thoughts@);
    let ghost cm = map_of(contents@);
    let ghost smap = map_of(summaries@);
    let mut i: usize = 0;
    assert(map_of(contents@.take(0)) =~= Map::<Seq<char>, Seq<char>>::empty());
    assert(src0.union_prefer_right(Map::<Seq<char>, Seq<char>>::empty()) =~= src0);
    assert(sum0.remove_keys(Set::<Seq<char>>::empty()) =~= sum0);
    while i < contents.len()
        invariant
            i <= contents.len(),
            distinct_keys(contents@),
            map_of(contents@) == cm,
            context.wf(),
            context.sources() == src0.union_prefer_right(map_of(contents@.take(i as int))),
            context.summaries() == sum0.remove_keys(map_of(contents@.take(i as int)).dom()),
            string_views(context.thoughts@) == t1,
            context.turn_count == old(context).turn_count,
            context.max_turns == old(context).max_turns,
        decreases contents.len() - i,
    {
        let ghost before = contents@.take(i as int);
        assert(contents@.take(i + 1) =~= before.push(contents@[i as int]));
        assert(!has_key(before, contents@[i as int].0@)) by {
            if has_key(before, contents@[i as int].0@) {
                let w = choose|w: int| 0 <= w < before.len() && #[trigger] before[w].0@ == contents@[i as int].0@;
                assert(contents@[w].0@ == contents@[i as int].0@);
            }
        }
        proof {
            lemma_map_of_push(before, contents@[i as int]);
        }
        let ghost th = context.thoughts;
        context.add_file_content(contents[i].0.clone(), contents[i].1.clone());
        assert(context.thoughts == th);
        assert(context.sources() =~= src0.union_prefer_right(map_of(contents@.take(i + 1))));
        assert(context.summaries() =~= sum0.remove_keys(map_of(contents@.take(i + 1)).dom()));
        i += 1;
    }
    assert(contents@.take(contents.len() as int) =~= contents@);
    let ghost srcs = context.sources();
    let ghost mid = context.summaries();
    let mut j: usize = 0;
    assert(map_of(summaries@.take(0)) =~= Map::<Seq<char>, Seq<char>>::empty());
    assert(mid.union_prefer_right(Map::<Seq<char>, Seq<char>>::empty().remove_keys(srcs.dom())) =~= mid);
    while j < summaries.len()
        invariant
            j <= summaries.len(),
            distinct_keys(summaries@),
            map_of(summaries@) == smap,
            context.wf(),
            context.sources() == srcs,
            context.summaries() == mid.union_prefer_right(map_of(summaries@.take(j as int)).remove_keys(srcs.dom())),
            string_views(context.thoughts@) == t1,
            context.turn_count == old(context).turn_count,
            context.max_turns == old(context).max_turns,
        decreases summaries.len() - j,
    {
        let ghost before = summaries@.take(j as int);
        assert(summaries@.take(j + 1) =~= before.push(summaries@[j as int]));
        assert(!has_key(before, summaries@[j as int].0@)) by {
            if has_key(before, summaries@[j as int].0@) {
                let w = choose|w: int| 0 <= w < before.len() && #[trigger] before[w].0@ == summaries@[j as int].0@;
                assert(summaries@[w].0@ == summaries@[j as int].0@);
            }
        }
        proof {
            lemma_map_of_push(before, summaries@[j as int]);
        }
        let ghost th = context.thoughts;
        context.add_yaml_summary(summaries[j].0.clone(), summaries[j].1.clone());
        assert(context.thoughts == th);
        assert(context.summaries() =~= mid.union_prefer_right(map_of(summaries@.take(j + 1)).remove_keys(srcs.dom())));
        j += 1;
    }
    assert(summaries@.take(summaries.len() as int) =~= summaries@);
    let mut t = chars_of("Currently have ");
    append_chars(&mut t, &decimal_exec(context.file_contents_map.len()));
    append_str(&mut t, " files with full source and ");
    append_chars(&mut t, &decimal_exec(context.yaml_summaries.len()));
    append_str(&mut t, " YAML summaries.");
    note(context, &t);
    AgentState::ArchitectDecision
}

} // verus!
