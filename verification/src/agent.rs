//! The agent that gathers context for answering a chat message: its context, its states, and the decisions and prompts
//! that do not depend on a model's answer.
use vstd::prelude::*;
use crate::chat::ChatMessage;
use crate::models::{has_key, lookup, Project, keys, without_key};
use crate::paths::{PathUtils, normalized_path};
use crate::sort::{sort_by_key, sorted_by_key};
use crate::text::{
    append_chars, append_str, chars_of, decimal, decimal_exec, eq_str, replace, replace_str,
    second_piece, second_piece_str, string_of, trim, trim_exec,
};
use crate::yaml_processing::remove_key;

verus! {

/// The map that a list of pairs with distinct keys stands for.
pub open spec fn map_of(entries: Seq<(String, String)>) -> Map<Seq<char>, Seq<char>> {
    Map::new(|k: Seq<char>| has_key(entries, k), |k: Seq<char>| lookup(entries, k)->0@)
}

/// No two pairs share a key.
pub open spec fn distinct_keys(entries: Seq<(String, String)>) -> bool {
    forall|i: int, j: int| 0 <= i < j < entries.len() ==> entries[i].0@ != entries[j].0@
}

proof fn lemma_lookup_at(entries: Seq<(String, String)>, i: int)
    requires
        distinct_keys(entries),
        0 <= i < entries.len(),
    ensures
        lookup(entries, entries[i].0@) == Some(entries[i].1),
    decreases entries.len(),
{
    if i > 0 {
        lemma_lookup_at(entries.drop_first(), i - 1);
    }
}

proof fn lemma_lookup_some(entries: Seq<(String, String)>, k: Seq<char>)
    ensures
        has_key(entries, k) ==> lookup(entries, k) is Some,
        !has_key(entries, k) ==> lookup(entries, k) is None,
    decreases entries.len(),
{
    if entries.len() > 0 {
        lemma_lookup_some(entries.drop_first(), k);
        if has_key(entries, k) && entries[0].0@ != k {
            let w = choose|w: int| 0 <= w < entries.len() && #[trigger] entries[w].0@ == k;
            assert(entries.drop_first()[w - 1].0@ == k);
        }
        if has_key(entries.drop_first(), k) {
            let w = choose|w: int| 0 <= w < entries.drop_first().len() && #[trigger] entries.drop_first()[w].0@ == k;
            assert(entries[w + 1].0@ == k);
        }
    }
}

/// Stores `value` under `key`, replacing the value of a pair with that key.
pub fn map_insert(entries: &mut Vec<(String, String)>, key: String, value: String)
    requires
        distinct_keys(old(entries)@),
    ensures
        distinct_keys(final(entries)@),
        map_of(final(entries)@) == map_of(old(entries)@).insert(key@, value@),
{
    let ghost e0 = entries@;
    match crate::models::position_of(entries, &key) {
        Some(i) => {
            entries.set(i, (key, value));
            proof {
                let e1 = entries@;
                assert(distinct_keys(e1));
                assert forall|k: Seq<char>| #![auto] map_of(e1).dom().contains(k) == map_of(e0).insert(key@, value@).dom().contains(k) by {
                    if has_key(e1, k) {
                        let w = choose|w: int| 0 <= w < e1.len() && #[trigger] e1[w].0@ == k;
                        if w != i { assert(e0[w].0@ == k); }
                    }
                    if has_key(e0, k) {
                        let w = choose|w: int| 0 <= w < e0.len() && #[trigger] e0[w].0@ == k;
                        if w != i { assert(e1[w].0@ == k); } else { assert(e1[w].0@ == k); }
                    }
                }
                assert forall|k: Seq<char>| #![auto] map_of(e1).dom().contains(k) implies map_of(e1)[k] == map_of(e0).insert(key@, value@)[k] by {
                    let w = choose|w: int| 0 <= w < e1.len() && #[trigger] e1[w].0@ == k;
                    lemma_lookup_at(e1, w);
                    if w != i {
                        lemma_lookup_at(e0, w);
                    }
                }
                assert(map_of(e1) =~= map_of(e0).insert(key@, value@));
            }
        },
        None => {
            entries.push((key, value));
            proof {
                let e1 = entries@;
                assert(distinct_keys(e1)) by {
                    assert forall|i: int, j: int| 0 <= i < j < e1.len() implies e1[i].0@ != e1[j].0@ by {
                        if j == e0.len() {
                            assert(e0[i].0@ != key@);
                        }
                    }
                }
                assert forall|k: Seq<char>| #![auto] map_of(e1).dom().contains(k) == map_of(e0).insert(key@, value@).dom().contains(k) by {
                    if has_key(e1, k) {
                        let w = choose|w: int| 0 <= w < e1.len() && #[trigger] e1[w].0@ == k;
                        if w < e0.len() { assert(e0[w].0@ == k); }
                    }
                    if has_key(e0, k) {
                        let w = choose|w: int| 0 <= w < e0.len() && #[trigger] e0[w].0@ == k;
                        assert(e1[w].0@ == k);
                    }
                    if k == key@ {
                        assert(e1[e0.len() as int].0@ == k);
                    }
                }
                assert forall|k: Seq<char>| #![auto] map_of(e1).dom().contains(k) implies map_of(e1)[k] == map_of(e0).insert(key@, value@)[k] by {
                    let w = choose|w: int| 0 <= w < e1.len() && #[trigger] e1[w].0@ == k;
                    lemma_lookup_at(e1, w);
                    if w < e0.len() {
                        lemma_lookup_at(e0, w);
                    }
                }
                assert(map_of(e1) =~= map_of(e0).insert(key@, value@));
            }
        },
    }
}

/// Removes the pair with key `key`, if there is one.
pub fn map_remove(entries: &mut Vec<(String, String)>, key: &String)
    requires
        distinct_keys(old(entries)@),
    ensures
        distinct_keys(final(entries)@),
        map_of(final(entries)@) == map_of(old(entries)@).remove(key@),
{
    let ghost e0 = entries@;
    remove_key(entries, key);
    proof {
        let e1 = entries@;
        lemma_filter_keys(e0, key@);
        assert(distinct_keys(e1)) by {
            lemma_filter_distinct(e0, key@);
        }
        assert forall|k: Seq<char>| #![auto] map_of(e1).dom().contains(k) == map_of(e0).remove(key@).dom().contains(k) by {}
        assert forall|k: Seq<char>| #![auto] map_of(e1).dom().contains(k) implies map_of(e1)[k] == map_of(e0).remove(key@)[k] by {
            let w = choose|w: int| 0 <= w < e1.len() && #[trigger] e1[w].0@ == k;
            lemma_lookup_at(e1, w);
            lemma_filter_lookup(e0, key@, k);
        }
        assert(map_of(e1) =~= map_of(e0).remove(key@));
    }
}

proof fn lemma_filter_keys(e: Seq<(String, String)>, key: Seq<char>)
    ensures
        forall|k: Seq<char>| #[trigger] has_key(without_key(e, key), k) == (has_key(e, k) && k != key),
    decreases e.len(),
{
    reveal(Seq::filter);
    if e.len() > 0 {
        lemma_filter_keys(e.drop_last(), key);
        let f = without_key(e, key);
        let g = without_key(e.drop_last(), key);
        assert(f == if e.last().0@ != key { g.push(e.last()) } else { g });
        assert forall|k: Seq<char>| #[trigger] has_key(f, k) == (has_key(e, k) && k != key) by {
            if has_key(f, k) {
                let w = choose|w: int| 0 <= w < f.len() && #[trigger] f[w].0@ == k;
                if w < g.len() {
                    assert(g[w].0@ == k);
                    assert(has_key(g, k));
                    assert(has_key(e.drop_last(), k));
                    let v = choose|v: int| 0 <= v < e.drop_last().len() && #[trigger] e.drop_last()[v].0@ == k;
                    assert(e[v].0@ == k);
                } else {
                    assert(e[e.len() - 1].0@ == k);
                }
            }
            if has_key(e, k) && k != key {
                let w = choose|w: int| 0 <= w < e.len() && #[trigger] e[w].0@ == k;
                if w < e.len() - 1 {
                    assert(e.drop_last()[w].0@ == k);
                    assert(has_key(e.drop_last(), k));
                    assert(has_key(g, k));
                    let v = choose|v: int| 0 <= v < g.len() && #[trigger] g[v].0@ == k;
                    assert(f[v].0@ == k);
                } else {
                    assert(f[f.len() - 1].0@ == k);
                }
            }
        }
    }
}

proof fn lemma_filter_distinct(e: Seq<(String, String)>, key: Seq<char>)
    requires
        distinct_keys(e),
    ensures
        distinct_keys(without_key(e, key)),
    decreases e.len(),
{
    reveal(Seq::filter);
    if e.len() > 0 {
        lemma_filter_distinct(e.drop_last(), key);
        lemma_filter_keys(e.drop_last(), key);
        let g = without_key(e.drop_last(), key);
        let f = without_key(e, key);
        assert(f == if e.last().0@ != key { g.push(e.last()) } else { g });
        if e.last().0@ != key {
            assert forall|i: int, j: int| 0 <= i < j < f.len() implies f[i].0@ != f[j].0@ by {
                if j == g.len() && f[i].0@ == f[j].0@ {
                    assert(g[i].0@ == e.last().0@);
                    assert(has_key(g, e.last().0@));
                    let v = choose|v: int| 0 <= v < e.drop_last().len() && #[trigger] e.drop_last()[v].0@ == e.last().0@;
                    assert(e[v].0@ == e[e.len() - 1].0@);
                }
            }
        }
    }
}

proof fn lemma_filter_lookup(e: Seq<(String, String)>, key: Seq<char>, k: Seq<char>)
    requires
        k != key,
    ensures
        lookup(without_key(e, key), k) == lookup(e, k),
    decreases e.len(),
{
    reveal(Seq::filter);
    lemma_lookup_last(e, k);
    if e.len() > 0 {
        lemma_filter_lookup(e.drop_last(), key, k);
        let g = without_key(e.drop_last(), key);
        let f = without_key(e, key);
        assert(f == if e.last().0@ != key { g.push(e.last()) } else { g });
        lemma_lookup_last(f, k);
        if e.last().0@ != key {
            assert(f.drop_last() =~= g);
        } else {
            assert(f == g);
        }
    }
}

proof fn lemma_lookup_last(e: Seq<(String, String)>, k: Seq<char>)
    ensures
        e.len() > 0 ==> lookup(e, k) == match lookup(e.drop_last(), k) {
            Some(v) => Some(v),
            None => if e.last().0@ == k { Some(e.last().1) } else { None },
        },
    decreases e.len(),
{
    if e.len() > 1 {
        lemma_lookup_last(e.drop_first(), k);
        assert(e.drop_first().drop_last() =~= e.drop_last().drop_first());
        assert(e.drop_last()[0] == e[0]);
        assert(e.drop_first().last() == e.last());
        assert(lookup(e.drop_last(), k) == if e[0].0@ == k { Some(e[0].1) } else { lookup(e.drop_last().drop_first(), k) });
    } else if e.len() == 1 {
        assert(e.drop_first().len() == 0);
        assert(e.drop_last().len() == 0);
        assert(e.last() == e[0]);
        assert(lookup(e.drop_first(), k) is None);
        assert(lookup(e.drop_last(), k) is None);
    }
}

// ------------------------------------------------------------------------
// Agent context
// ------------------------------------------------------------------------
/// The states of the agent.
pub enum AgentState {
    /// Search for context first.
    InitialSearch,
    /// Ask the architect what to do next.
    ArchitectDecision,
    /// Load the full source of these files.
    FetchingSource(Vec<String>),
    /// Search the summaries again with these keywords.
    SearchingMore(String),
    /// Answer the message.
    ReadyToGenerate,
    /// Stop with this error.
    Error(String),
}

/// What the agent has gathered so far.  A file is held either with its full
/// source or with its YAML summary, not both.
pub struct AgentContext {
    /// Full source of files, by path.
    pub file_contents_map: Vec<(String, String)>,
    /// YAML summaries of files, by path.
    pub yaml_summaries: Vec<(String, String)>,
    /// Notes of what the agent did.
    pub thoughts: Vec<String>,
    /// Architect turns taken.
    pub turn_count: usize,
    /// Turns allowed before answering anyway.
    pub max_turns: usize,
}

/// No path is held both as full source and as a summary.
pub open spec fn apart(sources: Map<Seq<char>, Seq<char>>, summaries: Map<Seq<char>, Seq<char>>) -> bool {
    forall|k: Seq<char>| #[trigger] sources.dom().contains(k) ==> !summaries.dom().contains(k)
}

/// The views of a list of strings.
pub open spec fn string_views(v: Seq<String>) -> Seq<Seq<char>> {
    v.map_values(|s: String| s@)
}

impl AgentContext {
    /// Both maps are lists with distinct keys.
    pub open spec fn wf(&self) -> bool {
        distinct_keys(self.file_contents_map@) && distinct_keys(self.yaml_summaries@)
    }

    /// The full sources held, by path.
    pub open spec fn sources(&self) -> Map<Seq<char>, Seq<char>> {
        map_of(self.file_contents_map@)
    }

    /// The summaries held, by path.
    pub open spec fn summaries(&self) -> Map<Seq<char>, Seq<char>> {
        map_of(self.yaml_summaries@)
    }

    /// An empty context allowing `max_turns` architect turns.
    pub fn new(max_turns: usize) -> (r: Self)
        ensures
            r.wf(),
            r.sources() == Map::<Seq<char>, Seq<char>>::empty(),
            r.summaries() == Map::<Seq<char>, Seq<char>>::empty(),
            r.thoughts@.len() == 0,
            r.turn_count == 0,
            r.max_turns == max_turns,
    {
        let r = Self {
            file_contents_map: Vec::new(),
            yaml_summaries: Vec::new(),
            thoughts: Vec::new(),
            turn_count: 0,
            max_turns,
        };
        assert(r.sources() =~= Map::<Seq<char>, Seq<char>>::empty());
        assert(r.summaries() =~= Map::<Seq<char>, Seq<char>>::empty());
        r
    }

    /// Counts one more architect turn; tells (and notes) whether the allowed
    /// turns are used up.
    pub fn increment_turn(&mut self) -> (reached: bool)
        requires
            old(self).turn_count < usize::MAX,
        ensures
            final(self).turn_count == old(self).turn_count + 1,
            reached == (final(self).turn_count >= old(self).max_turns),
            reached ==> string_views(final(self).thoughts@) == string_views(old(self).thoughts@).push(
                "Warning: Reached maximum architect turns ("@ + decimal(old(self).max_turns as nat)
                    + "). Forcing generation."@,
            ),
            !reached ==> final(self).thoughts == old(self).thoughts,
            final(self).file_contents_map == old(self).file_contents_map,
            final(self).yaml_summaries == old(self).yaml_summaries,
            final(self).max_turns == old(self).max_turns,
    {
        self.turn_count += 1;
        if self.turn_count >= self.max_turns {
            let mut m = chars_of("Warning: Reached maximum architect turns (");
            let d = decimal_exec(self.max_turns);
            append_chars(&mut m, &d);
            append_str(&mut m, "). Forcing generation.");
            let ghost prev = self.thoughts@;
            self.thoughts.push(string_of(&m));
            assert(string_views(self.thoughts@) =~= string_views(prev).push(m@));
            true
        } else {
            false
        }
    }

    /// Notes a thought.
    pub fn add_thought(&mut self, thought: String)
        ensures
            final(self).thoughts@ == old(self).thoughts@.push(thought),
            final(self).file_contents_map == old(self).file_contents_map,
            final(self).yaml_summaries == old(self).yaml_summaries,
            final(self).turn_count == old(self).turn_count,
            final(self).max_turns == old(self).max_turns,
    {
        self.thoughts.push(thought);
    }

    /// Holds the full source of `path`, dropping its summary if there was one.
    pub fn add_file_content(&mut self, path: String, content: String)
        requires
            old(self).wf(),
        ensures
            final(self).wf(),
            final(self).sources() == old(self).sources().insert(path@, content@),
            final(self).summaries() == old(self).summaries().remove(path@),
            final(self).thoughts == old(self).thoughts,
            final(self).turn_count == old(self).turn_count,
            final(self).max_turns == old(self).max_turns,
    {
        let p2 = path.clone();
        map_insert(&mut self.file_contents_map, path, content);
        map_remove(&mut self.yaml_summaries, &p2);
    }

    /// Holds the summary of `path`, unless its full source is already held.
    pub fn add_yaml_summary(&mut self, path: String, summary: String)
        requires
            old(self).wf(),
        ensures
            final(self).wf(),
            final(self).sources() == old(self).sources(),
            final(self).summaries() == if old(self).sources().dom().contains(path@) {
                old(self).summaries()
            } else {
                old(self).summaries().insert(path@, summary@)
            },
            final(self).thoughts == old(self).thoughts,
            final(self).turn_count == old(self).turn_count,
            final(self).max_turns == old(self).max_turns,
    {
        if !crate::models::contains_key(&self.file_contents_map, &path) {
            map_insert(&mut self.yaml_summaries, path, summary);
        }
    }

    /// The number of files held, with full source or summary.
    pub fn total_files(&self) -> (n: usize)
        requires
            self.file_contents_map@.len() + self.yaml_summaries@.len() <= usize::MAX,
        ensures
            n == self.file_contents_map@.len() + self.yaml_summaries@.len(),
    {
        self.file_contents_map.len() + self.yaml_summaries.len()
    }
}

/// The context never holds a file both with full source and as a summary:
/// adding full source drops the summary, and a summary is not added for a
/// file whose source is held.
pub proof fn law_sources_and_summaries_stay_apart(
    sources: Map<Seq<char>, Seq<char>>,
    summaries: Map<Seq<char>, Seq<char>>,
    path: Seq<char>,
    text: Seq<char>,
)
    requires
        apart(sources, summaries),
    ensures
        apart(sources.insert(path, text), summaries.remove(path)),
        apart(
            sources,
            if sources.dom().contains(path) { summaries } else { summaries.insert(path, text) },
        ),
{
}


/// A list of pairs with distinct keys stands for a finite map with as many
/// keys as the list has pairs.
pub proof fn lemma_map_of_len(e: Seq<(String, String)>)
    requires
        distinct_keys(e),
    ensures
        map_of(e).dom().finite(),
        map_of(e).dom().len() == e.len(),
    decreases e.len(),
{
    if e.len() == 0 {
        assert(map_of(e).dom() =~= Set::<Seq<char>>::empty()) by {
            assert forall|k: Seq<char>| !has_key(e, k) by {}
        }
    } else {
        let d = e.drop_last();
        let k0 = e.last().0@;
        lemma_map_of_len(d);
        assert(map_of(e).dom() =~= map_of(d).dom().insert(k0)) by {
            assert forall|k: Seq<char>| has_key(e, k) <==> has_key(d, k) || k == k0 by {
                if has_key(e, k) {
                    let w = choose|w: int| 0 <= w < e.len() && #[trigger] e[w].0@ == k;
                    if w < e.len() - 1 {
                        assert(d[w].0@ == k);
                    }
                }
                if has_key(d, k) {
                    let w = choose|w: int| 0 <= w < d.len() && #[trigger] d[w].0@ == k;
                    assert(e[w].0@ == k);
                }
                if k == k0 {
                    assert(e[e.len() - 1].0@ == k);
                }
            }
        }
        assert(!map_of(d).dom().contains(k0)) by {
            if has_key(d, k0) {
                let w = choose|w: int| 0 <= w < d.len() && #[trigger] d[w].0@ == k0;
                assert(e[w].0@ == e[e.len() - 1].0@);
            }
        }
    }
}

/// The files the context counts are the paths it holds: with full source
/// plus as summaries. Moving a summarized file to full source keeps the
/// count.
pub proof fn law_total_files_counts_paths(c: AgentContext, path: Seq<char>, text: Seq<char>)
    requires
        c.wf(),
    ensures
        c.sources().len() + c.summaries().len() == c.file_contents_map@.len() + c.yaml_summaries@.len(),
        c.summaries().dom().contains(path) && !c.sources().dom().contains(path) ==> c.sources().insert(
            path,
            text,
        ).len() + c.summaries().remove(path).len() == c.sources().len() + c.summaries().len(),
{
    lemma_map_of_len(c.file_contents_map@);
    lemma_map_of_len(c.yaml_summaries@);
    if c.summaries().dom().contains(path) && !c.sources().dom().contains(path) {
        assert(c.sources().insert(path, text).dom() =~= c.sources().dom().insert(path));
        assert(c.summaries().remove(path).dom() =~= c.summaries().dom().remove(path));
    }
}

// ------------------------------------------------------------------------
// Search context
// ------------------------------------------------------------------------
/// A user or model turn of a conversation.
pub open spec fn is_turn(m: ChatMessage) -> bool {
    m.role@ == "user"@ || m.role@ == "model"@
}

/// The user and model turns of a history, in order.
pub open spec fn turns_of(h: Seq<ChatMessage>) -> Seq<ChatMessage>
    decreases h.len(),
{
    if h.len() == 0 {
        seq![]
    } else {
        turns_of(h.drop_last()) + if is_turn(h.last()) { seq![h.last()] } else { seq![] }
    }
}

/// The last six user or model turns of a history, oldest first.
pub open spec fn recent_turns(h: Seq<ChatMessage>) -> Seq<ChatMessage> {
    let f = turns_of(h);
    if f.len() > 6 {
        f.skip(f.len() - 6)
    } else {
        f
    }
}

/// Each message as `role: content` on its own line.
pub open spec fn turns_text(ms: Seq<ChatMessage>) -> Seq<char>
    decreases ms.len(),
{
    if ms.len() == 0 {
        seq![]
    } else {
        turns_text(ms.drop_last()) + ms.last().role@ + ": "@ + ms.last().content@ + "\n"@
    }
}

/// The request for a detailed semantic-search query.
pub open spec fn contextual_query(initial_query: Seq<char>, history: Seq<ChatMessage>, user_message: Seq<char>) -> Seq<char> {
    let recent = recent_turns(history);
    "Consider the following initial task:\n"@ + initial_query + (if recent.len() > 0 {
        "\n\nReview the recent conversation history to understand the current context and goal:\n"@
            + turns_text(recent)
    } else {
        seq![]
    }) + "\n\nBased on this, and the user's latest message:\n"@ + user_message
        + "\n\nWhat are the most relevant details for addressing the current request and conversation state? Provide a comprehensive and focused query for a semantic search. Your output will fill in the details missing from the latest message (since what you generate here will be prepended to the latest message before sending to the vector search)."@
}

/// Positions of the user and model turns of a history, in order.
fn turn_positions(history: &Vec<ChatMessage>) -> (t: Vec<usize>)
    ensures
        t@.len() == turns_of(history@).len(),
        forall|k: int| 0 <= k < t@.len() ==> #[trigger] t@[k] < history@.len(),
        forall|k: int| 0 <= k < t@.len() ==> #[trigger] history@[t@[k] as int] == turns_of(history@)[k],
{
    let ghost h = history@;
    let mut turns: Vec<usize> = Vec::new();
    let mut i: usize = 0;
    while i < history.len()
        invariant
            i <= history.len(),
            h == history@,
            turns@.len() == turns_of(h.take(i as int)).len(),
            forall|k: int| 0 <= k < turns@.len() ==> #[trigger] turns@[k] < i,
            forall|k: int| 0 <= k < turns@.len() ==> #[trigger] h[turns@[k] as int] == turns_of(h.take(i as int))[k],
        decreases history.len() - i,
    {
        let ghost before = turns_of(h.take(i as int));
        assert(h.take(i + 1).drop_last() =~= h.take(i as int));
        assert(h.take(i + 1).last() == h[i as int]);
        assert(turns_of(h.take(i + 1)) == before + if is_turn(h[i as int]) { seq![h[i as int]] } else { seq![] });
        let m = &history[i];
        let role = chars_of(m.role.as_str());
        if eq_str(&role, "user") || eq_str(&role, "model") {
            let ghost old_turns = turns@;
            turns.push(i);
            assert forall|k: int| 0 <= k < turns@.len() implies #[trigger] h[turns@[k] as int] == turns_of(h.take(i + 1))[k] by {
                if k < old_turns.len() {
                    assert(turns@[k] == old_turns[k]);
                    assert(h[old_turns[k] as int] == before[k]);
                }
            }
        } else {
            assert(turns_of(h.take(i + 1)) =~= before);
        }
        i += 1;
    }
    assert(h.take(h.len() as int) =~= h);
    turns
}

/// The request for a query for semantic (vector) search that combines the
/// initial query, the last six user/model turns, and the latest message.
pub fn generate_contextual_vector_query(initial_query: &str, previous_history_for_llm: &Vec<ChatMessage>, user_message_content: &str) -> (q: String)
    ensures
        q@ == contextual_query(initial_query@, previous_history_for_llm@, user_message_content@),
{
    let ghost h = previous_history_for_llm@;
    let turns = turn_positions(previous_history_for_llm);
    let ghost f = turns_of(h);
    let start: usize = if turns.len() > 6 { turns.len() - 6 } else { 0 };
    let ghost recent = recent_turns(h);
    assert(recent =~= f.skip(start as int));
    let mut q = chars_of("Consider the following initial task:\n");
    append_str(&mut q, initial_query);
    if turns.len() > 0 {
        append_str(&mut q, "\n\nReview the recent conversation history to understand the current context and goal:\n");
        let mut body: Vec<char> = Vec::new();
        let mut k: usize = start;
        while k < turns.len()
            invariant
                start <= k <= turns@.len(),
                turns@.len() == f.len(),
                recent == f.skip(start as int),
                forall|j: int| 0 <= j < turns@.len() ==> #[trigger] turns@[j] < h.len(),
                forall|j: int| 0 <= j < turns@.len() ==> #[trigger] h[turns@[j] as int] == f[j],
                h == previous_history_for_llm@,
                body@ == turns_text(recent.take(k - start)),
            decreases turns.len() - k,
        {
            let m = &previous_history_for_llm[turns[k]];
            assert(recent.take(k + 1 - start).drop_last() =~= recent.take(k - start));
            assert(recent.take(k + 1 - start).last() == f[k as int]);
            append_str(&mut body, m.role.as_str());
            append_str(&mut body, ": ");
            append_str(&mut body, m.content.as_str());
            append_str(&mut body, "\n");
            k += 1;
        }
        assert(recent.take(turns.len() - start) =~= recent);
        append_chars(&mut q, &body);
    }
    append_str(&mut q, "\n\nBased on this, and the user's latest message:\n");
    append_str(&mut q, user_message_content);
    append_str(&mut q, "\n\nWhat are the most relevant details for addressing the current request and conversation state? Provide a comprehensive and focused query for a semantic search. Your output will fill in the details missing from the latest message (since what you generate here will be prepended to the latest message before sending to the vector search).");
    string_of(&q)
}

/// The source path that a keyword-search hit on a summary file stands for:
/// the part after `<project>/`, with `*` turned back into `/` and `.yml` dropped.
pub open spec fn hit_target(hit: Seq<char>, project_name: Seq<char>) -> Option<Seq<char>> {
    match second_piece(hit, project_name + "/"@) {
        None => None,
        Some(p) => Some(replace(replace(p, "*"@, "/"@), ".yml"@, ""@)),
    }
}

/// The source path that a keyword-search hit on a summary file stands for.
pub fn hit_target_path(hit: &str, project_name: &str) -> (r: Option<String>)
    ensures
        r matches Some(s) ==> hit_target(hit@, project_name@) == Some(s@),
        r is None ==> hit_target(hit@, project_name@) is None,
{
    let h = chars_of(hit);
    let mut sep = chars_of(project_name);
    append_str(&mut sep, "/");
    let seps = string_of(&sep);
    match second_piece_str(&h, seps.as_str()) {
        None => None,
        Some(p) => {
            let a = replace_str(&p, "*", "/");
            let b = replace_str(&a, ".yml", "");
            Some(string_of(&b))
        },
    }
}

/// `s` with `x` appended unless it already holds it.
pub open spec fn add_unique(s: Seq<Seq<char>>, x: Seq<char>) -> Seq<Seq<char>> {
    if s.contains(x) { s } else { s.push(x) }
}

pub(crate) fn push_unique(v: &mut Vec<String>, x: String)
    requires
        forall|a: int, b: int| 0 <= a < b < old(v)@.len() ==> old(v)@[a]@ != old(v)@[b]@,
    ensures
        string_views(final(v)@) == add_unique(string_views(old(v)@), x@),
        forall|a: int, b: int| 0 <= a < b < final(v)@.len() ==> final(v)@[a]@ != final(v)@[b]@,
        forall|y: Seq<char>| #[trigger] string_views(final(v)@).contains(y) <==> (string_views(old(v)@).contains(y) || y == x@),
{
    let mut i: usize = 0;
    while i < v.len()
        invariant
            i <= v.len(),
            v@ == old(v)@,
            forall|a: int, b: int| 0 <= a < b < old(v)@.len() ==> old(v)@[a]@ != old(v)@[b]@,
            forall|j: int| 0 <= j < i ==> v@[j]@ != x@,
        decreases v.len() - i,
    {
        if v[i].eq(&x) {
            assert(string_views(v@)[i as int] == x@);
            assert(string_views(v@).contains(x@));
            return;
        }
        i += 1;
    }
    let ghost prev = v@;
    assert(!string_views(prev).contains(x@)) by {
        if string_views(prev).contains(x@) {
            let j = choose|j: int| 0 <= j < string_views(prev).len() && string_views(prev)[j] == x@;
            assert(prev[j]@ == x@);
        }
    }
    let ghost xv = x@;
    v.push(x);
    assert(string_views(v@) =~= string_views(prev).push(xv));
    assert forall|a: int, b: int| 0 <= a < b < v@.len() implies v@[a]@ != v@[b]@ by {
        if b == prev.len() {
            assert(string_views(prev)[a] == v@[a]@);
        }
    }
    assert forall|y: Seq<char>| #[trigger] string_views(v@).contains(y) <==> (string_views(prev).contains(y) || y == xv) by {
        if string_views(v@).contains(y) {
            let j = choose|j: int| 0 <= j < string_views(v@).len() && string_views(v@)[j] == y;
            if j < prev.len() {
                assert(string_views(prev)[j] == y);
            }
        }
        if string_views(prev).contains(y) {
            let j = choose|j: int| 0 <= j < string_views(prev).len() && string_views(prev)[j] == y;
            assert(string_views(v@)[j] == y);
        }
        if y == xv {
            assert(string_views(v@)[prev.len() as int] == y);
        }
    }
}

/// A note for each of the first `n` paths that cannot be normalized.
pub open spec fn unnormalized_notes(
    prefix: Seq<char>,
    paths: Seq<String>,
    fd: Seq<(String, String)>,
    ek: Seq<Seq<char>>,
    sd: Seq<char>,
    n: int,
) -> Seq<Seq<char>>
    decreases n,
{
    if n <= 0 {
        seq![]
    } else {
        unnormalized_notes(prefix, paths, fd, ek, sd, n - 1) + if normalized_path(paths[n - 1]@, fd, ek, sd) is None {
            seq![prefix + paths[n - 1]@]
        } else {
            seq![]
        }
    }
}

/// A note for each of the first `n` keyword hits whose source path cannot be taken from it.
pub open spec fn untargeted_notes(hits: Seq<String>, project_name: Seq<char>, n: int) -> Seq<Seq<char>>
    decreases n,
{
    if n <= 0 {
        seq![]
    } else {
        untargeted_notes(hits, project_name, n - 1) + if hit_target(hits[n - 1]@, project_name) is None {
            seq!["Could not extract target path from YAML hit: "@ + hits[n - 1]@]
        } else {
            seq![]
        }
    }
}

/// The relevant paths gathered from the model's suggested files, the vector
/// search results (both normalized to project paths) and the keyword-search
/// hits, without repetitions, in that order; notes what could not be used.
pub fn consolidate_search_results(
    project: &Project,
    vector_result_paths: &Vec<String>,
    keyword_hits: &Vec<String>,
    suggested_vector_files: &Vec<String>,
    thoughts: &mut Vec<String>,
) -> (r: Vec<String>)
    ensures
        forall|x: Seq<char>| #[trigger] string_views(r@).contains(x) <==> (
            (exists|i: int| 0 <= i < suggested_vector_files@.len() && normalized_path(
                suggested_vector_files@[i]@, project.file_descriptions@, keys(project.embeddings@), project.source_dir@) == Some(x))
            || (exists|i: int| 0 <= i < vector_result_paths@.len() && normalized_path(
                vector_result_paths@[i]@, project.file_descriptions@, keys(project.embeddings@), project.source_dir@) == Some(x))
            || (exists|i: int| 0 <= i < keyword_hits@.len() && hit_target(keyword_hits@[i]@, project.name@) == Some(x))),
        forall|i: int, j: int| 0 <= i < j < r@.len() ==> r@[i]@ != r@[j]@,
        string_views(final(thoughts)@) == string_views(old(thoughts)@)
            + unnormalized_notes("Could not normalize suggested path from vector search: "@, suggested_vector_files@,
                project.file_descriptions@, keys(project.embeddings@), project.source_dir@, suggested_vector_files@.len() as int)
            + unnormalized_notes("Could not normalize path from raw vector search results: "@, vector_result_paths@,
                project.file_descriptions@, keys(project.embeddings@), project.source_dir@, vector_result_paths@.len() as int)
            + untargeted_notes(keyword_hits@, project.name@, keyword_hits@.len() as int),
{
    let ghost t0 = string_views(thoughts@);
    let mut r: Vec<String> = Vec::new();
    let ghost fd = project.file_descriptions@;
    let ghost ek = keys(project.embeddings@);
    let ghost sd = project.source_dir@;
    let mut i: usize = 0;
    while i < suggested_vector_files.len()
        invariant
            i <= suggested_vector_files.len(),
            fd == project.file_descriptions@,
            ek == keys(project.embeddings@),
            sd == project.source_dir@,
            forall|a: int, b: int| 0 <= a < b < r@.len() ==> r@[a]@ != r@[b]@,
            forall|x: Seq<char>| #[trigger] string_views(r@).contains(x) <==> (exists|k: int| 0 <= k < i && normalized_path(suggested_vector_files@[k]@, fd, ek, sd) == Some(x)),
            string_views(thoughts@) == t0 + unnormalized_notes("Could not normalize suggested path from vector search: "@, suggested_vector_files@, fd, ek, sd, i as int),
        decreases suggested_vector_files.len() - i,
    {
        match PathUtils::normalize_project_path(suggested_vector_files[i].as_str(), project) {
            Some(n) => {
                push_unique(&mut r, n);
            },
            None => {
                let mut m = chars_of("Could not normalize suggested path from vector search: ");
                append_str(&mut m, suggested_vector_files[i].as_str());
                let ghost tb = thoughts@;
                thoughts.push(string_of(&m));
                assert(string_views(thoughts@) =~= string_views(tb).push(m@));
            },
        }
        i += 1;
    }
    let mut j: usize = 0;
    while j < vector_result_paths.len()
        invariant
            j <= vector_result_paths.len(),
            fd == project.file_descriptions@,
            ek == keys(project.embeddings@),
            sd == project.source_dir@,
            forall|a: int, b: int| 0 <= a < b < r@.len() ==> r@[a]@ != r@[b]@,
            forall|x: Seq<char>| #[trigger] string_views(r@).contains(x) <==> (
                (exists|k: int| 0 <= k < suggested_vector_files@.len() && normalized_path(suggested_vector_files@[k]@, fd, ek, sd) == Some(x))
                || (exists|k: int| 0 <= k < j && normalized_path(vector_result_paths@[k]@, fd, ek, sd) == Some(x))),
            string_views(thoughts@) == t0 + unnormalized_notes("Could not normalize suggested path from vector search: "@, suggested_vector_files@, fd, ek, sd, suggested_vector_files@.len() as int) + unnormalized_notes("Could not normalize path from raw vector search results: "@, vector_result_paths@, fd, ek, sd, j as int),
        decreases vector_result_paths.len() - j,
    {
        match PathUtils::normalize_project_path(vector_result_paths[j].as_str(), project) {
            Some(n) => {
                push_unique(&mut r, n);
            },
            None => {
                let mut m = chars_of("Could not normalize path from raw vector search results: ");
                append_str(&mut m, vector_result_paths[j].as_str());
                let ghost tb = thoughts@;
                thoughts.push(string_of(&m));
                assert(string_views(thoughts@) =~= string_views(tb).push(m@));
            },
        }
        j += 1;
    }
    let mut k: usize = 0;
    while k < keyword_hits.len()
        invariant
            k <= keyword_hits.len(),
            fd == project.file_descriptions@,
            ek == keys(project.embeddings@),
            sd == project.source_dir@,
            forall|a: int, b: int| 0 <= a < b < r@.len() ==> r@[a]@ != r@[b]@,
            forall|x: Seq<char>| #[trigger] string_views(r@).contains(x) <==> (
                (exists|q: int| 0 <= q < suggested_vector_files@.len() && normalized_path(suggested_vector_files@[q]@, fd, ek, sd) == Some(x))
                || (exists|q: int| 0 <= q < vector_result_paths@.len() && normalized_path(vector_result_paths@[q]@, fd, ek, sd) == Some(x))
                || (exists|q: int| 0 <= q < k && hit_target(keyword_hits@[q]@, project.name@) == Some(x))),
            string_views(thoughts@) == t0 + unnormalized_notes("Could not normalize suggested path from vector search: "@, suggested_vector_files@, fd, ek, sd, suggested_vector_files@.len() as int) + unnormalized_notes("Could not normalize path from raw vector search results: "@, vector_result_paths@, fd, ek, sd, vector_result_paths@.len() as int) + untargeted_notes(keyword_hits@, project.name@, k as int),
        decreases keyword_hits.len() - k,
    {
        match hit_target_path(keyword_hits[k].as_str(), project.name.as_str()) {
            Some(p) => {
                push_unique(&mut r, p);
            },
            None => {
                let mut m = chars_of("Could not extract target path from YAML hit: ");
                append_str(&mut m, keyword_hits[k].as_str());
                let ghost tb = thoughts@;
                thoughts.push(string_of(&m));
                assert(string_views(thoughts@) =~= string_views(tb).push(m@));
            },
        }
        k += 1;
    }
    r
}

} // verus!
