//! Chat histories kept as trees of messages, and the stored query data that
//! holds them.
use vstd::prelude::*;
use crate::text::{chars_of, append_str, string_of, trim_end_matches, trim_end_matches_exec, eq_str};
use crate::paths::{join_path, path_join};

verus! {

/// One chat message.  `id` and `parent_id` link the messages of a query into a
/// tree; timestamps are nanoseconds since the Unix epoch.
pub struct ChatMessage {
    pub role: String,
    pub content: String,
    pub hidden: bool,
    pub commit_hash: Option<String>,
    pub timestamp: Option<i128>,
    pub context_files: Option<Vec<String>>,
    pub provider: Option<String>,
    pub model: Option<String>,
    pub hidden_context: Option<Vec<String>>,
    pub thoughts: Option<Vec<String>>,
    pub id: u128,
    pub parent_id: Option<u128>,
}

/// The stored data of one query.  Scores of vector results are kept as the bit
/// patterns of their `f32` values.
pub struct QueryData {
    pub query: String,
    pub title: Option<String>,
    pub vector_results: Vec<(String, u32)>,
    pub context_files: Vec<String>,
    pub llm_analysis: String,
    pub auto_commit: bool,
    pub chat_nodes: Vec<ChatMessage>,
    pub current_node_id: Option<u128>,
    pub analysis_chat_history: Vec<ChatMessage>,
}

/// Two query records that agree in everything but their chat: the query,
/// title, vector results, context files, analysis and auto-commit flag.
pub open spec fn same_record(a: QueryData, b: QueryData) -> bool {
    &&& a.query == b.query
    &&& a.title == b.title
    &&& a.vector_results == b.vector_results
    &&& a.context_files == b.context_files
    &&& a.llm_analysis == b.llm_analysis
    &&& a.auto_commit == b.auto_commit
}

fn copy_strings(v: &Vec<String>) -> (r: Vec<String>)
    ensures
        r@ == v@,
{
    let mut r: Vec<String> = Vec::new();
    let mut i: usize = 0;
    while i < v.len()
        invariant
            i <= v.len(),
            r@ == v@.take(i as int),
        decreases v.len() - i,
    {
        r.push(v[i].clone());
        assert(r@ =~= v@.take(i + 1));
        i += 1;
    }
    assert(v@.take(v.len() as int) =~= v@);
    r
}

fn copy_opt_string(v: &Option<String>) -> (r: Option<String>)
    ensures
        r == *v,
{
    match v {
        None => None,
        Some(s) => Some(s.clone()),
    }
}

fn copy_opt_strings(v: &Option<Vec<String>>) -> (r: Option<Vec<String>>)
    ensures
        r matches Some(x) ==> v matches Some(y) && x@ == y@,
        r is None <==> v is None,
{
    match v {
        None => None,
        Some(s) => Some(copy_strings(s)),
    }
}

/// Two messages that agree in every field (string lists compared by content).
pub open spec fn same_message(a: ChatMessage, b: ChatMessage) -> bool {
    &&& a.role == b.role
    &&& a.content == b.content
    &&& a.hidden == b.hidden
    &&& a.commit_hash == b.commit_hash
    &&& a.timestamp == b.timestamp
    &&& same_opt_strings(a.context_files, b.context_files)
    &&& a.provider == b.provider
    &&& a.model == b.model
    &&& same_opt_strings(a.hidden_context, b.hidden_context)
    &&& same_opt_strings(a.thoughts, b.thoughts)
    &&& a.id == b.id
    &&& a.parent_id == b.parent_id
}

/// Two optional string lists with the same content.
pub open spec fn same_opt_strings(a: Option<Vec<String>>, b: Option<Vec<String>>) -> bool {
    match (a, b) {
        (None, None) => true,
        (Some(x), Some(y)) => x@ == y@,
        _ => false,
    }
}

impl ChatMessage {
    /// A copy of this message.
    pub fn copy(&self) -> (r: ChatMessage)
        ensures
            same_message(r, *self),
    {
        ChatMessage {
            role: self.role.clone(),
            content: self.content.clone(),
            hidden: self.hidden,
            commit_hash: copy_opt_string(&self.commit_hash),
            timestamp: self.timestamp,
            context_files: copy_opt_strings(&self.context_files),
            provider: copy_opt_string(&self.provider),
            model: copy_opt_string(&self.model),
            hidden_context: copy_opt_strings(&self.hidden_context),
            thoughts: copy_opt_strings(&self.thoughts),
            id: self.id,
            parent_id: self.parent_id,
        }
    }
}

// ------------------------------------------------------------------------
// The message tree
// ------------------------------------------------------------------------
/// The index of the first message of `nodes` with the given id.
pub open spec fn node_index(nodes: Seq<ChatMessage>, id: u128) -> Option<int>
    decreases nodes.len(),
{
    if nodes.len() == 0 {
        None
    } else if nodes.last().id == id {
        match node_index(nodes.drop_last(), id) {
            Some(i) => Some(i),
            None => Some(nodes.len() - 1),
        }
    } else {
        node_index(nodes.drop_last(), id)
    }
}

/// No two messages share an id.
pub open spec fn distinct_ids(nodes: Seq<ChatMessage>) -> bool {
    forall|i: int, j: int| 0 <= i < j < nodes.len() ==> nodes[i].id != nodes[j].id
}

/// The messages met walking from `cur` towards the root, newest first, for at
/// most `fuel` messages.
pub open spec fn walk_up(nodes: Seq<ChatMessage>, cur: Option<u128>, fuel: nat) -> Seq<ChatMessage>
    decreases fuel,
{
    if fuel == 0 {
        seq![]
    } else {
        match cur {
            None => seq![],
            Some(id) => match node_index(nodes, id) {
                None => seq![],
                Some(i) => seq![nodes[i]] + walk_up(nodes, nodes[i].parent_id, (fuel - 1) as nat),
            },
        }
    }
}

/// The walk from `cur` towards the root ends (at the root, or at an id that is
/// not in `nodes`) after at most `fuel` messages.
pub open spec fn walk_ends(nodes: Seq<ChatMessage>, cur: Option<u128>, fuel: nat) -> bool
    decreases fuel,
{
    match cur {
        None => true,
        Some(id) => match node_index(nodes, id) {
            None => true,
            Some(i) => fuel > 0 && walk_ends(nodes, nodes[i].parent_id, (fuel - 1) as nat),
        },
    }
}

/// The active branch ending at `cur`, oldest message first.
pub open spec fn active_branch(nodes: Seq<ChatMessage>, cur: Option<u128>) -> Seq<ChatMessage> {
    walk_up(nodes, cur, nodes.len()).reverse()
}

/// The ids of the direct children of `parent`, in the order of `nodes`.
pub open spec fn children(nodes: Seq<ChatMessage>, parent: u128) -> Seq<u128>
    decreases nodes.len(),
{
    if nodes.len() == 0 {
        seq![]
    } else {
        children(nodes.drop_last(), parent) + if nodes.last().parent_id == Some(parent) {
            seq![nodes.last().id]
        } else {
            seq![]
        }
    }
}

/// The end of the linear descent from `cur`: follows only children; stops at a
/// message with no child or with several, or when `fuel` runs out.
pub open spec fn descend(nodes: Seq<ChatMessage>, cur: u128, fuel: nat) -> u128
    decreases fuel,
{
    let ch = children(nodes, cur);
    if fuel == 0 || ch.len() != 1 {
        cur
    } else {
        descend(nodes, ch[0], (fuel - 1) as nat)
    }
}

/// The linear descent from `cur` stops within `fuel` steps.
pub open spec fn descent_ends(nodes: Seq<ChatMessage>, cur: u128, fuel: nat) -> bool
    decreases fuel,
{
    let ch = children(nodes, cur);
    ch.len() != 1 || (fuel > 0 && descent_ends(nodes, ch[0], (fuel - 1) as nat))
}

/// The index of the first message with the given id.
pub fn find_node(nodes: &Vec<ChatMessage>, id: u128) -> (r: Option<usize>)
    ensures
        r matches Some(i) ==> node_index(nodes@, id) == Some(i as int) && i < nodes@.len(),
        r is None ==> node_index(nodes@, id) is None,
{
    let mut i: usize = 0;
    while i < nodes.len()
        invariant
            i <= nodes.len(),
            forall|j: int| 0 <= j < i ==> nodes@[j].id != id,
        decreases nodes.len() - i,
    {
        if nodes[i].id == id {
            proof {
                lemma_node_index_first(nodes@, id, i as int);
            }
            return Some(i);
        }
        i += 1;
    }
    proof {
        lemma_node_index_none(nodes@, id);
    }
    None
}

proof fn lemma_node_index_first(nodes: Seq<ChatMessage>, id: u128, i: int)
    requires
        0 <= i < nodes.len(),
        nodes[i].id == id,
        forall|j: int| 0 <= j < i ==> nodes[j].id != id,
    ensures
        node_index(nodes, id) == Some(i),
    decreases nodes.len(),
{
    if i < nodes.len() - 1 {
        lemma_node_index_first(nodes.drop_last(), id, i);
    } else {
        lemma_node_index_none(nodes.drop_last(), id);
    }
}

proof fn lemma_node_index_none(nodes: Seq<ChatMessage>, id: u128)
    requires
        forall|j: int| 0 <= j < nodes.len() ==> nodes[j].id != id,
    ensures
        node_index(nodes, id) is None,
    decreases nodes.len(),
{
    if nodes.len() > 0 {
        lemma_node_index_none(nodes.drop_last(), id);
    }
}

/// `node_index` finds the message with the id when ids are distinct.
pub proof fn lemma_node_index_distinct(nodes: Seq<ChatMessage>, id: u128, i: int)
    requires
        distinct_ids(nodes),
        0 <= i < nodes.len(),
        nodes[i].id == id,
    ensures
        node_index(nodes, id) == Some(i),
{
    lemma_node_index_first(nodes, id, i);
}

/// A found index holds the id.
pub proof fn lemma_node_index_found(nodes: Seq<ChatMessage>, id: u128)
    ensures
        node_index(nodes, id) matches Some(i) ==> 0 <= i < nodes.len() && nodes[i].id == id
            && forall|j: int| 0 <= j < i ==> nodes[j].id != id,
        node_index(nodes, id) is None ==> forall|j: int| 0 <= j < nodes.len() ==> nodes[j].id != id,
    decreases nodes.len(),
{
    if nodes.len() > 0 {
        lemma_node_index_found(nodes.drop_last(), id);
        assert forall|j: int| 0 <= j < nodes.len() - 1 implies nodes.drop_last()[j] == nodes[j] by {}
    }
}

/// Whether the walk from `cur` towards the root ends within `nodes.len()` messages
/// (it does unless the parent links form a cycle).
pub fn branch_is_finite(nodes: &Vec<ChatMessage>, cur: Option<u128>) -> (r: bool)
    ensures
        r == walk_ends(nodes@, cur, nodes@.len()),
{
    let mut c = cur;
    let mut fuel: usize = nodes.len();
    loop
        invariant
            fuel <= nodes.len(),
            walk_ends(nodes@, cur, nodes@.len()) == walk_ends(nodes@, c, fuel as nat),
        decreases fuel,
    {
        match c {
            None => return true,
            Some(id) => match find_node(nodes, id) {
                None => return true,
                Some(i) => {
                    if fuel == 0 {
                        return false;
                    }
                    c = nodes[i].parent_id;
                    fuel -= 1;
                },
            },
        }
    }
}

/// The messages of the active branch, oldest first: the walk from `current`
/// to the root, reversed.
pub fn get_active_chat_branch(nodes: &Vec<ChatMessage>, current: Option<u128>) -> (r: Vec<ChatMessage>)
    requires
        walk_ends(nodes@, current, nodes@.len()),
    ensures
        r@.len() == active_branch(nodes@, current).len(),
        forall|i: int| 0 <= i < r@.len() ==> same_message(#[trigger] r@[i], active_branch(nodes@, current)[i]),
{
    let mut hist: Vec<ChatMessage> = Vec::new();
    let mut c = current;
    let mut fuel: usize = nodes.len();
    let ghost done: Seq<ChatMessage> = seq![];
    loop
        invariant
            fuel <= nodes.len(),
            walk_ends(nodes@, c, fuel as nat),
            walk_up(nodes@, current, nodes@.len()) == done + walk_up(nodes@, c, fuel as nat),
            hist@.len() == done.len(),
            forall|k: int| 0 <= k < hist@.len() ==> same_message(#[trigger] hist@[k], done.reverse()[k]),
        decreases fuel,
    {
        match c {
            None => {
                assert(walk_up(nodes@, current, nodes@.len()) =~= done);
                return hist;
            },
            Some(id) => match find_node(nodes, id) {
                None => {
                    assert(walk_up(nodes@, current, nodes@.len()) =~= done);
                    return hist;
                },
                Some(i) => {
                    let m = nodes[i].copy();
                    let ghost old_done = done;
                    let ghost prev = hist@;
                    hist.insert(0, m);
                    proof {
                        done = done.push(nodes@[i as int]);
                        assert(done.reverse() =~= seq![nodes@[i as int]] + old_done.reverse());
                        assert forall|k: int| 0 <= k < hist@.len() implies same_message(#[trigger] hist@[k], done.reverse()[k]) by {
                            if k > 0 {
                                assert(hist@[k] == prev[k - 1]);
                                assert(done.reverse()[k] == old_done.reverse()[k - 1]);
                            }
                        }
                    }
                    c = nodes[i].parent_id;
                    fuel -= 1;
                },
            },
        }
    }
}


/// The ids of the direct children of `parent`.
pub fn find_direct_children(nodes: &Vec<ChatMessage>, parent: u128) -> (r: Vec<u128>)
    ensures
        r@ == children(nodes@, parent),
{
    let mut r: Vec<u128> = Vec::new();
    let mut i: usize = 0;
    while i < nodes.len()
        invariant
            i <= nodes.len(),
            r@ == children(nodes@.take(i as int), parent),
        decreases nodes.len() - i,
    {
        assert(nodes@.take(i + 1).drop_last() =~= nodes@.take(i as int));
        if nodes[i].parent_id == Some(parent) {
            r.push(nodes[i].id);
        }
        i += 1;
    }
    assert(nodes@.take(nodes.len() as int) =~= nodes@);
    r
}

/// The last message of the linear path below `start`: follows the only child
/// while there is exactly one.
pub fn find_furthest_linear_descendant(nodes: &Vec<ChatMessage>, start: u128) -> (r: u128)
    requires
        descent_ends(nodes@, start, nodes@.len()),
    ensures
        r == descend(nodes@, start, nodes@.len()),
{
    let mut cur = start;
    let mut fuel: usize = nodes.len();
    loop
        invariant
            fuel <= nodes.len(),
            descent_ends(nodes@, cur, fuel as nat),
            descend(nodes@, start, nodes@.len()) == descend(nodes@, cur, fuel as nat),
        decreases fuel,
    {
        let ch = find_direct_children(nodes, cur);
        if ch.len() != 1 {
            return cur;
        }
        cur = ch[0];
        fuel -= 1;
    }
}

/// Whether the linear descent from `start` stops within `nodes.len()` steps
/// (it does unless the parent links form a cycle).
pub fn descent_is_finite(nodes: &Vec<ChatMessage>, start: u128) -> (r: bool)
    ensures
        r == descent_ends(nodes@, start, nodes@.len()),
{
    let mut cur = start;
    let mut fuel: usize = nodes.len();
    loop
        invariant
            fuel <= nodes.len(),
            descent_ends(nodes@, start, nodes@.len()) == descent_ends(nodes@, cur, fuel as nat),
        decreases fuel,
    {
        let ch = find_direct_children(nodes, cur);
        if ch.len() != 1 {
            return true;
        }
        if fuel == 0 {
            return false;
        }
        cur = ch[0];
        fuel -= 1;
    }
}

// ------------------------------------------------------------------------
// Updates of a query's chat
// ------------------------------------------------------------------------
/// `nodes` with `m` stored under its id: replacing the message with that id,
/// or appended when there is none.
pub open spec fn upsert(nodes: Seq<ChatMessage>, m: ChatMessage) -> Seq<ChatMessage> {
    match node_index(nodes, m.id) {
        Some(i) => nodes.update(i, m),
        None => nodes.push(m),
    }
}

/// The message `m` as it is stored when added with id `id` under `parent`.
pub open spec fn linked(m: ChatMessage, id: u128, parent: Option<u128>) -> ChatMessage {
    ChatMessage { id: id, parent_id: parent, ..m }
}

/// `m` with new content, stamped with `now`.
pub open spec fn with_content(m: ChatMessage, content: String, now: i128) -> ChatMessage {
    ChatMessage { content: content, timestamp: Some(now), ..m }
}

/// `m` hidden or shown, stamped with `now`.
pub open spec fn with_hidden(m: ChatMessage, hidden: bool, now: i128) -> ChatMessage {
    ChatMessage { hidden: hidden, timestamp: Some(now), ..m }
}

/// The parent given to a new message: the override, or else the current node.
pub open spec fn new_parent(override_parent: Option<u128>, current: Option<u128>) -> Option<u128> {
    match override_parent {
        Some(p) => Some(p),
        None => current,
    }
}

fn upsert_exec(nodes: &mut Vec<ChatMessage>, m: ChatMessage)
    ensures
        final(nodes)@ == upsert(old(nodes)@, m),
{
    match find_node(nodes, m.id) {
        Some(i) => {
            nodes.set(i, m);
        },
        None => {
            nodes.push(m);
        },
    }
}

/// A new random id (`uuid::Uuid::new_v4`).  Nothing is promised of it.
#[verifier::external_body]
fn new_uuid() -> u128 {
    uuid::Uuid::new_v4().as_u128()
}

/// A lowercase hexadecimal digit.
pub open spec fn is_hex_lower(c: char) -> bool {
    ('0' <= c && c <= '9') || ('a' <= c && c <= 'f')
}

/// The hyphenated text of a version-4 UUID: 36 characters, hyphens at
/// positions 8, 13, 18 and 23, lowercase hexadecimal digits elsewhere, and
/// the version digit `4` at position 14.
pub open spec fn uuid_v4_text(t: Seq<char>) -> bool {
    &&& t.len() == 36
    &&& forall|i: int| 0 <= i < 36 ==> if i == 8 || i == 13 || i == 18 || i == 23 {
        #[trigger] t[i] == '-'
    } else {
        is_hex_lower(t[i])
    }
    &&& t[14] == '4'
}

/// A query file name: a version-4 UUID's text followed by `.json`.
pub open spec fn query_file_name(name: Seq<char>) -> bool {
    name.len() == 41 && uuid_v4_text(name.take(36)) && name.skip(36) == ".json"@
}

/// The text of a new random id (`uuid::Uuid::new_v4`, displayed). Which id
/// is random; uuid displays it hyphenated in lowercase hex (`fmt.rs`,
/// `format_hyphenated`), and a version-4 id carries the version digit 4.
#[verifier::external_body]
fn new_uuid_text() -> (r: String)
    ensures
        uuid_v4_text(r@),
{
    uuid::Uuid::new_v4().to_string()
}

/// The current time (`chrono::Utc::now`) as whole seconds since the Unix
/// epoch (`DateTime::timestamp`) and the nanoseconds past that second
/// (`DateTime::timestamp_subsec_nanos`). Of the time itself nothing is
/// promised; the nanoseconds are below 2,000,000,000 (chrono keeps them
/// under one second, or under two within a leap second).
#[verifier::external_body]
fn clock_now() -> (r: (i64, u32))
    ensures
        r.1 < 2_000_000_000,
{
    let now = chrono::Utc::now();
    (now.timestamp(), now.timestamp_subsec_nanos())
}

/// The time `secs` seconds and `nanos` nanoseconds after the Unix epoch, in
/// nanoseconds.
pub open spec fn clock_reading(secs: i64, nanos: u32) -> int {
    secs * 1_000_000_000 + nanos
}

/// The current time in nanoseconds since the Unix epoch: a reading of the
/// clock's seconds and sub-second nanoseconds, combined.
pub(crate) fn now_nanos() -> (r: i128)
    ensures
        exists|secs: i64, nanos: u32| nanos < 2_000_000_000 && #[trigger] clock_reading(secs, nanos) == r,
{
    let (secs, nanos) = clock_now();
    let s: i128 = secs as i128;
    let n: i128 = nanos as i128;
    assert(-10_000_000_000_000_000_000_000_000_000 < s * 1_000_000_000 < 10_000_000_000_000_000_000_000_000_000) by (nonlinear_arith)
        requires
            -9_223_372_036_854_775_808 <= s <= 9_223_372_036_854_775_807,
    ;
    let r = s * 1_000_000_000 + n;
    assert(clock_reading(secs, nanos) == r);
    r
}

/// The chat nodes made from a linear history: message `i` gets id `ids[i]`
/// and the previous message as its parent.
pub open spec fn migrated_nodes(history: Seq<ChatMessage>, ids: Seq<u128>) -> Seq<ChatMessage> {
    Seq::new(
        history.len(),
        |i: int| linked(history[i], ids[i], if i == 0 { None } else { Some(ids[i - 1]) }),
    )
}

impl QueryData {
    /// An empty query record.
    pub fn empty() -> (r: QueryData)
        ensures
            r.query@ == Seq::<char>::empty(),
            r.title is None,
            r.vector_results@.len() == 0,
            r.context_files@.len() == 0,
            r.llm_analysis@ == Seq::<char>::empty(),
            !r.auto_commit,
            r.chat_nodes@.len() == 0,
            r.current_node_id is None,
            r.analysis_chat_history@.len() == 0,
    {
        QueryData {
            query: String::new(),
            title: None,
            vector_results: Vec::new(),
            context_files: Vec::new(),
            llm_analysis: String::new(),
            auto_commit: false,
            chat_nodes: Vec::new(),
            current_node_id: None,
            analysis_chat_history: Vec::new(),
        }
    }

    /// Stores `message` as a new node with id `id` under `parent_override` (or
    /// under the current node) and makes it the current node.
    pub fn add_message_with_id(&mut self, message: ChatMessage, id: u128, parent_override: Option<u128>)
        ensures
            final(self).chat_nodes@ == upsert(
                old(self).chat_nodes@,
                linked(message, id, new_parent(parent_override, old(self).current_node_id)),
            ),
            final(self).current_node_id == Some(id),
            final(self).analysis_chat_history == old(self).analysis_chat_history,
            same_record(*final(self), *old(self)),
    {
        let parent = match parent_override {
            Some(p) => Some(p),
            None => self.current_node_id,
        };
        let m = ChatMessage { id: id, parent_id: parent, ..message };
        upsert_exec(&mut self.chat_nodes, m);
        self.current_node_id = Some(id);
    }

    /// Turns an old linear history into chat nodes, when there are no nodes yet:
    /// message `i` gets id `ids[i]` and the previous message as parent, the last
    /// one becomes current, and the linear history is emptied.
    pub fn migrate_history_with_ids(&mut self, ids: &Vec<u128>)
        requires
            ids@.len() == old(self).analysis_chat_history@.len(),
        ensures
            if old(self).chat_nodes@.len() == 0 && old(self).analysis_chat_history@.len() > 0 {
                &&& final(self).chat_nodes@ == migrated_nodes(old(self).analysis_chat_history@, ids@)
                &&& final(self).current_node_id == Some(ids@.last())
                &&& final(self).analysis_chat_history@.len() == 0
            } else {
                &&& final(self).chat_nodes == old(self).chat_nodes
                &&& final(self).current_node_id == old(self).current_node_id
                &&& final(self).analysis_chat_history == old(self).analysis_chat_history
            },
            same_record(*final(self), *old(self)),
    {
        if self.chat_nodes.len() == 0 && self.analysis_chat_history.len() > 0 {
            let ghost hist = self.analysis_chat_history@;
            let mut history: Vec<ChatMessage> = Vec::new();
            std::mem::swap(&mut history, &mut self.analysis_chat_history);
            let mut nodes: Vec<ChatMessage> = Vec::new();
            let mut last: Option<u128> = None;
            let n = history.len();
            let mut k: usize = 0;
            while history.len() > 0
                invariant
                    n == hist.len(),
                    ids@.len() == n,
                    history@.len() + k == n,
                    history@ =~= hist.skip(k as int),
                    nodes@ =~= migrated_nodes(hist.take(k as int), ids@.take(k as int)),
                    last == (if k == 0 { None } else { Some(ids@[k - 1]) }),
                decreases history@.len(),
            {
                let m = history.remove(0);
                assert(m == hist[k as int]);
                assert(hist.skip(k + 1) =~= hist.skip(k as int).drop_first());
                let id = ids[k];
                let node = ChatMessage { id: id, parent_id: last, ..m };
                nodes.push(node);
                last = Some(id);
                k += 1;
                assert(nodes@ =~= migrated_nodes(hist.take(k as int), ids@.take(k as int)));
            }
            assert(hist.take(n as int) =~= hist);
            assert(ids@.take(n as int) =~= ids@);
            self.chat_nodes = nodes;
            self.current_node_id = last;
        }
    }

    /// Turns an old linear history into chat nodes, with new random ids.
    pub fn migrate_history(&mut self)
        ensures
            if old(self).chat_nodes@.len() == 0 && old(self).analysis_chat_history@.len() > 0 {
                exists|ids: Seq<u128>|
                    ids.len() == old(self).analysis_chat_history@.len()
                    && final(self).chat_nodes@ == #[trigger] migrated_nodes(old(self).analysis_chat_history@, ids)
                    && final(self).current_node_id == Some(ids.last())
                    && final(self).analysis_chat_history@.len() == 0
            } else {
                &&& final(self).chat_nodes == old(self).chat_nodes
                &&& final(self).current_node_id == old(self).current_node_id
                &&& final(self).analysis_chat_history == old(self).analysis_chat_history
            },
            same_record(*final(self), *old(self)),
    {
        let mut ids: Vec<u128> = Vec::new();
        let mut i: usize = 0;
        while i < self.analysis_chat_history.len()
            invariant
                i <= self.analysis_chat_history.len(),
                ids@.len() == i,
            decreases self.analysis_chat_history.len() - i,
        {
            ids.push(new_uuid());
            i += 1;
        }
        self.migrate_history_with_ids(&ids);
    }
}

/// Keeps the messages of a project's queries.
pub struct ChatManager;

impl ChatManager {
    pub fn new() -> Self {
        Self {}
    }

    /// The active branch of the chat: the walk from `current_node_id` to the
    /// root, oldest message first.
    pub fn get_active_chat_branch(&self, nodes: &Vec<ChatMessage>, current_node_id: Option<u128>) -> (r: Vec<ChatMessage>)
        requires
            walk_ends(nodes@, current_node_id, nodes@.len()),
        ensures
            r@.len() == active_branch(nodes@, current_node_id).len(),
            forall|i: int| 0 <= i < r@.len() ==> same_message(#[trigger] r@[i], active_branch(nodes@, current_node_id)[i]),
    {
        get_active_chat_branch(nodes, current_node_id)
    }

    /// The chat history of a loaded query (`None` when it could not be loaded):
    /// its active branch when it has chat nodes, else its old linear history.
    pub fn get_analysis_chat_history(&self, query_data: Option<&QueryData>) -> (r: Vec<ChatMessage>)
        requires
            query_data matches Some(qd) ==> qd.chat_nodes@.len() > 0 ==> walk_ends(qd.chat_nodes@, qd.current_node_id, qd.chat_nodes@.len()),
        ensures
            match query_data {
                None => r@.len() == 0,
                Some(qd) => if qd.chat_nodes@.len() > 0 {
                    r@.len() == active_branch(qd.chat_nodes@, qd.current_node_id).len()
                    && forall|i: int| 0 <= i < r@.len() ==> same_message(#[trigger] r@[i], active_branch(qd.chat_nodes@, qd.current_node_id)[i])
                } else {
                    r@.len() == qd.analysis_chat_history@.len()
                    && forall|i: int| 0 <= i < r@.len() ==> same_message(#[trigger] r@[i], qd.analysis_chat_history@[i])
                },
            },
    {
        match query_data {
            None => Vec::new(),
            Some(qd) => {
                if qd.chat_nodes.len() > 0 {
                    get_active_chat_branch(&qd.chat_nodes, qd.current_node_id)
                } else {
                    let mut r: Vec<ChatMessage> = Vec::new();
                    let mut i: usize = 0;
                    while i < qd.analysis_chat_history.len()
                        invariant
                            i <= qd.analysis_chat_history.len(),
                            r@.len() == i,
                            forall|k: int| 0 <= k < i ==> same_message(#[trigger] r@[k], qd.analysis_chat_history@[k]),
                        decreases qd.analysis_chat_history.len() - i,
                    {
                        r.push(qd.analysis_chat_history[i].copy());
                        i += 1;
                    }
                    r
                }
            },
        }
    }

    /// Adds a message to the chat with a new random id, under `parent_id_override`
    /// or under the current node, and makes it current.  Returns its id.
    pub fn add_chat_message(&self, query_data: &mut QueryData, message: ChatMessage, parent_id_override: Option<u128>) -> (id: u128)
        ensures
            final(query_data).chat_nodes@ == upsert(
                old(query_data).chat_nodes@,
                linked(message, id, new_parent(parent_id_override, old(query_data).current_node_id)),
            ),
            final(query_data).current_node_id == Some(id),
            final(query_data).analysis_chat_history == old(query_data).analysis_chat_history,
            same_record(*final(query_data), *old(query_data)),
    {
        let id = new_uuid();
        query_data.add_message_with_id(message, id, parent_id_override);
        id
    }

    /// Sets the content of message `message_id` (stamping it with `now`);
    /// nothing changes when there is no such message.
    pub fn update_message_content_at(&self, query_data: &mut QueryData, message_id: u128, content: String, now: i128)
        ensures
            match node_index(old(query_data).chat_nodes@, message_id) {
                None => final(query_data).chat_nodes == old(query_data).chat_nodes,
                Some(i) => final(query_data).chat_nodes@ == old(query_data).chat_nodes@.update(
                    i,
                    with_content(old(query_data).chat_nodes@[i], content, now),
                ),
            },
            final(query_data).current_node_id == old(query_data).current_node_id,
            final(query_data).analysis_chat_history == old(query_data).analysis_chat_history,
            same_record(*final(query_data), *old(query_data)),
    {
        if let Some(i) = find_node(&query_data.chat_nodes, message_id) {
            let m = query_data.chat_nodes.remove(i);
            let updated = ChatMessage { content: content, timestamp: Some(now), ..m };
            query_data.chat_nodes.insert(i, updated);
            assert(query_data.chat_nodes@ =~= old(query_data).chat_nodes@.update(
                i as int,
                with_content(old(query_data).chat_nodes@[i as int], content, now),
            ));
        }
    }

    /// Sets the content of message `message_id`, stamping it with the current time.
    pub fn update_message_in_history(&self, query_data: &mut QueryData, message_id: u128, content: String)
        ensures
            match node_index(old(query_data).chat_nodes@, message_id) {
                None => final(query_data).chat_nodes == old(query_data).chat_nodes,
                Some(i) => exists|now: i128| final(query_data).chat_nodes@ == old(query_data).chat_nodes@.update(
                    i,
                    #[trigger] with_content(old(query_data).chat_nodes@[i], content, now),
                ),
            },
            final(query_data).current_node_id == old(query_data).current_node_id,
            final(query_data).analysis_chat_history == old(query_data).analysis_chat_history,
            same_record(*final(query_data), *old(query_data)),
    {
        let now = now_nanos();
        self.update_message_content_at(query_data, message_id, content, now);
    }

    /// Hides or shows message `message_id` (stamping it with `now`); nothing
    /// changes when there is no such message.
    pub fn update_message_visibility_at(&self, query_data: &mut QueryData, message_id: u128, hidden: bool, now: i128)
        ensures
            match node_index(old(query_data).chat_nodes@, message_id) {
                None => final(query_data).chat_nodes == old(query_data).chat_nodes,
                Some(i) => final(query_data).chat_nodes@ == old(query_data).chat_nodes@.update(
                    i,
                    with_hidden(old(query_data).chat_nodes@[i], hidden, now),
                ),
            },
            final(query_data).current_node_id == old(query_data).current_node_id,
            final(query_data).analysis_chat_history == old(query_data).analysis_chat_history,
            same_record(*final(query_data), *old(query_data)),
    {
        if let Some(i) = find_node(&query_data.chat_nodes, message_id) {
            let m = query_data.chat_nodes.remove(i);
            let updated = ChatMessage { hidden: hidden, timestamp: Some(now), ..m };
            query_data.chat_nodes.insert(i, updated);
            assert(query_data.chat_nodes@ =~= old(query_data).chat_nodes@.update(
                i as int,
                with_hidden(old(query_data).chat_nodes@[i as int], hidden, now),
            ));
        }
    }

    /// Hides or shows message `message_id`, stamping it with the current time.
    pub fn update_message_visibility(&self, query_data: &mut QueryData, message_id: u128, hidden: bool)
        ensures
            match node_index(old(query_data).chat_nodes@, message_id) {
                None => final(query_data).chat_nodes == old(query_data).chat_nodes,
                Some(i) => exists|now: i128| final(query_data).chat_nodes@ == old(query_data).chat_nodes@.update(
                    i,
                    #[trigger] with_hidden(old(query_data).chat_nodes@[i], hidden, now),
                ),
            },
            final(query_data).current_node_id == old(query_data).current_node_id,
            final(query_data).analysis_chat_history == old(query_data).analysis_chat_history,
            same_record(*final(query_data), *old(query_data)),
    {
        let now = now_nanos();
        self.update_message_visibility_at(query_data, message_id, hidden, now);
    }

    /// Makes the end of the linear path below `requested_node_id` the current
    /// node; nothing changes when there is no such message.
    pub fn set_current_node(&self, query_data: &mut QueryData, requested_node_id: u128)
        requires
            node_index(old(query_data).chat_nodes@, requested_node_id) is Some ==> descent_ends(
                old(query_data).chat_nodes@,
                requested_node_id,
                old(query_data).chat_nodes@.len(),
            ),
        ensures
            final(query_data).chat_nodes == old(query_data).chat_nodes,
            final(query_data).current_node_id == if node_index(old(query_data).chat_nodes@, requested_node_id) is Some {
                Some(descend(old(query_data).chat_nodes@, requested_node_id, old(query_data).chat_nodes@.len()))
            } else {
                old(query_data).current_node_id
            },
            final(query_data).analysis_chat_history == old(query_data).analysis_chat_history,
            same_record(*final(query_data), *old(query_data)),
    {
        if find_node(&query_data.chat_nodes, requested_node_id).is_some() {
            let leaf = find_furthest_linear_descendant(&query_data.chat_nodes, requested_node_id);
            query_data.current_node_id = Some(leaf);
        }
    }

    /// Clears the chat of a query.
    pub fn reset_chat_history(&self, query_data: &mut QueryData)
        ensures
            final(query_data).chat_nodes@.len() == 0,
            final(query_data).current_node_id is None,
            final(query_data).analysis_chat_history == old(query_data).analysis_chat_history,
            same_record(*final(query_data), *old(query_data)),
    {
        query_data.chat_nodes = Vec::new();
        query_data.current_node_id = None;
    }

    /// Resets the chat of a stored query, as it is stored afterwards: the
    /// loaded record (or a new one when nothing could be loaded) is prepared
    /// for an update (see `QueryManager::prepare_query_data_update`) and its
    /// chat cleared. Gives the record and the file name to store it under.
    /// An old linear history is gone afterwards, unless the record held chat
    /// nodes beside it.
    pub fn reset_loaded_chat(&self, loaded: Option<QueryData>, query_filename: &str) -> (r: (QueryData, String))
        ensures
            r.0.chat_nodes@.len() == 0,
            r.0.current_node_id is None,
            loaded matches Some(qd) ==> {
                &&& r.1@ == query_filename@
                &&& same_record(r.0, qd)
                &&& if qd.chat_nodes@.len() == 0 {
                    r.0.analysis_chat_history@.len() == 0
                } else {
                    r.0.analysis_chat_history == qd.analysis_chat_history
                }
            },
            loaded is None ==> {
                &&& query_file_name(r.1@)
                &&& r.0.title is None
                &&& r.0.query@.len() == 0
                &&& r.0.vector_results@.len() == 0
                &&& r.0.context_files@.len() == 0
                &&& r.0.llm_analysis@.len() == 0
                &&& !r.0.auto_commit
                &&& r.0.analysis_chat_history@.len() == 0
            },
    {
        let (mut qd, name) = QueryManager::new().prepare_query_data_update(loaded, query_filename);
        self.reset_chat_history(&mut qd);
        (qd, name)
    }
}

/// Stores and loads the data of a project's queries.
pub struct QueryManager;

impl QueryManager {
    pub fn new() -> Self {
        Self {}
    }

    /// A new file name for query data: a random id followed by `.json`.
    pub fn generate_query_filename(&self) -> (r: String)
        ensures
            query_file_name(r@),
    {
        let id = new_uuid_text();
        let mut v = chars_of(id.as_str());
        append_str(&mut v, ".json");
        proof {
            reveal_strlit(".json");
            assert(v@.take(36) =~= id@);
            assert(v@.skip(36) =~= ".json"@);
        }
        string_of(&v)
    }

    /// The directory holding a project's query files.
    pub fn get_queries_dir(&self, project_dir: &str) -> (r: String)
        ensures
            r@ == path_join(project_dir@, "queries"@),
    {
        join_path(project_dir, "queries")
    }

    /// The data to update and the file name to store it under: the loaded data
    /// under its own name, or an empty record under a new name when nothing
    /// could be loaded; an old linear history is turned into chat nodes first.
    pub fn prepare_query_data_update(&self, loaded: Option<QueryData>, query_filename: &str) -> (r: (QueryData, String))
        ensures
            loaded is Some ==> r.1@ == query_filename@,
            loaded matches Some(qd) ==> same_record(r.0, qd),
            loaded is None ==> r.0.chat_nodes@.len() == 0 && r.0.current_node_id is None && r.0.title is None
                && r.0.query@.len() == 0 && r.0.vector_results@.len() == 0 && r.0.context_files@.len() == 0
                && r.0.llm_analysis@.len() == 0 && !r.0.auto_commit && r.0.analysis_chat_history@.len() == 0,
            loaded is None ==> query_file_name(r.1@),
            loaded matches Some(qd) ==> if qd.chat_nodes@.len() == 0 && qd.analysis_chat_history@.len() > 0 {
                exists|ids: Seq<u128>|
                    ids.len() == qd.analysis_chat_history@.len()
                    && r.0.chat_nodes@ == #[trigger] migrated_nodes(qd.analysis_chat_history@, ids)
                    && r.0.current_node_id == Some(ids.last())
                    && r.0.analysis_chat_history@.len() == 0
            } else {
                &&& r.0.chat_nodes == qd.chat_nodes
                &&& r.0.current_node_id == qd.current_node_id
                &&& r.0.analysis_chat_history == qd.analysis_chat_history
            },
    {
        let (mut qd, name) = match loaded {
            Some(qd) => (qd, query_filename.to_string()),
            None => (QueryData::empty(), self.generate_query_filename()),
        };
        qd.migrate_history();
        (qd, name)
    }

    /// Sets the title of a query.
    pub fn update_query_title(&self, query_data: &mut QueryData, new_title: &str)
        ensures
            final(query_data).title matches Some(t) && t@ == new_title@,
            final(query_data).chat_nodes == old(query_data).chat_nodes,
            final(query_data).current_node_id == old(query_data).current_node_id,
            final(query_data).analysis_chat_history == old(query_data).analysis_chat_history,
            final(query_data).query == old(query_data).query,
            final(query_data).vector_results == old(query_data).vector_results,
            final(query_data).context_files == old(query_data).context_files,
            final(query_data).llm_analysis == old(query_data).llm_analysis,
            final(query_data).auto_commit == old(query_data).auto_commit,
    {
        query_data.title = Some(new_title.to_string());
    }

    /// The title shown for a query file: the stored title, else the file name
    /// without `.json`; the bare file name when the file cannot be loaded.
    pub fn query_display_title(&self, filename: &str, loaded: Option<&QueryData>) -> (r: String)
        ensures
            r@ == match loaded {
                None => filename@,
                Some(qd) => match qd.title {
                    Some(t) => t@,
                    None => trim_end_matches(filename@, ".json"@),
                },
            },
    {
        match loaded {
            None => filename.to_string(),
            Some(qd) => match &qd.title {
                Some(t) => t.clone(),
                None => {
                    let f = chars_of(filename);
                    let j = chars_of(".json");
                    let r = trim_end_matches_exec(&f, &j);
                    string_of(&r)
                },
            },
        }
    }

    /// The most recent query: the file name of the last of the listed queries.
    pub fn get_recent_query_id(&self, filenames: &Vec<(String, String)>) -> (r: Option<String>)
        ensures
            filenames@.len() == 0 ==> r is None,
            filenames@.len() > 0 ==> (r matches Some(s) && s@ == filenames@.last().0@),
    {
        if filenames.len() == 0 {
            None
        } else {
            Some(filenames[filenames.len() - 1].0.clone())
        }
    }

    /// A list field of a loaded query: `vector_results` gives the result paths,
    /// `context_files` the context files; any other field, or a query that could
    /// not be loaded, gives an empty list.
    pub fn get_query_vec_field(&self, loaded: Option<&QueryData>, field: &str) -> (r: Vec<String>)
        ensures
            r@.map_values(|s: String| s@) == match loaded {
                None => Seq::<Seq<char>>::empty(),
                Some(qd) => if field@ == "vector_results"@ {
                    qd.vector_results@.map_values(|p: (String, u32)| p.0@)
                } else if field@ == "context_files"@ {
                    qd.context_files@.map_values(|s: String| s@)
                } else {
                    Seq::<Seq<char>>::empty()
                },
            },
    {
        match loaded {
            None => Vec::new(),
            Some(qd) => {
                let f = chars_of(field);
                if eq_str(&f, "vector_results") {
                    let mut r: Vec<String> = Vec::new();
                    let mut i: usize = 0;
                    while i < qd.vector_results.len()
                        invariant
                            i <= qd.vector_results.len(),
                            r@.map_values(|s: String| s@) =~= qd.vector_results@.take(i as int).map_values(|p: (String, u32)| p.0@),
                        decreases qd.vector_results.len() - i,
                    {
                        let ghost prev = r@;
                        r.push(qd.vector_results[i].0.clone());
                        assert(r@.map_values(|s: String| s@) =~= prev.map_values(|s: String| s@).push(qd.vector_results@[i as int].0@));
                        assert(qd.vector_results@.take(i + 1) =~= qd.vector_results@.take(i as int).push(qd.vector_results@[i as int]));
                        i += 1;
                    }
                    assert(qd.vector_results@.take(qd.vector_results.len() as int) =~= qd.vector_results@);
                    r
                } else if eq_str(&f, "context_files") {
                    let r = copy_strings(&qd.context_files);
                    r
                } else {
                    Vec::new()
                }
            },
        }
    }

    /// The message with the given id in a loaded query.
    pub fn get_chat_node(&self, loaded: Option<&QueryData>, message_id: u128) -> (r: Option<ChatMessage>)
        ensures
            match loaded {
                None => r is None,
                Some(qd) => match node_index(qd.chat_nodes@, message_id) {
                    None => r is None,
                    Some(i) => (r matches Some(m) && same_message(m, qd.chat_nodes@[i])),
                },
            },
    {
        match loaded {
            None => None,
            Some(qd) => match find_node(&qd.chat_nodes, message_id) {
                None => None,
                Some(i) => Some(qd.chat_nodes[i].copy()),
            },
        }
    }

    /// The entry that is taken as the most recent query file, given each
    /// entry's modification time (`None` when it cannot be read): an entry
    /// without a time if there is one, else the newest (the first of equals).
    pub fn most_recent_entry(&self, times: &Vec<Option<i128>>) -> (r: Option<usize>)
        ensures
            times@.len() == 0 ==> r is None,
            r matches Some(i) ==> i < times@.len() && (
                (times@[i as int] is None && forall|j: int| 0 <= j < i ==> times@[j] is Some)
                || (forall|j: int| 0 <= j < times@.len() ==> times@[j] is Some
                    && times@[j]->0 <= times@[i as int]->0
                    && (j < i ==> times@[j]->0 < times@[i as int]->0))),
            times@.len() > 0 ==> r is Some,
    {
        if times.len() == 0 {
            return None;
        }
        let mut i: usize = 0;
        while i < times.len()
            invariant
                i <= times.len(),
                forall|j: int| 0 <= j < i ==> times@[j] is Some,
            decreases times.len() - i,
        {
            if times[i].is_none() {
                return Some(i);
            }
            i += 1;
        }
        let mut best: usize = 0;
        let mut k: usize = 1;
        while k < times.len()
            invariant
                1 <= k <= times.len(),
                best < k,
                forall|j: int| 0 <= j < times@.len() ==> times@[j] is Some,
                forall|j: int| 0 <= j < k ==> times@[j]->0 <= times@[best as int]->0,
                forall|j: int| 0 <= j < best ==> times@[j]->0 < times@[best as int]->0,
            decreases times.len() - k,
        {
            let tk = match times[k] { Some(t) => t, None => 0 };
            let tb = match times[best] { Some(t) => t, None => 0 };
            if tk > tb {
                best = k;
            }
            k += 1;
        }
        Some(best)
    }
}

// ------------------------------------------------------------------------
// Laws of the chat tree
// ------------------------------------------------------------------------
proof fn lemma_walk_unchanged_by_fresh(nodes: Seq<ChatMessage>, m: ChatMessage, c: Option<u128>, fuel: nat)
    requires
        walk_ends(nodes, c, fuel),
        c != Some(m.id),
        forall|j: int| 0 <= j < nodes.len() ==> nodes[j].id != m.id && nodes[j].parent_id != Some(m.id),
    ensures
        walk_up(nodes.push(m), c, fuel) == walk_up(nodes, c, fuel),
        walk_ends(nodes.push(m), c, fuel),
    decreases fuel,
{
    let n2 = nodes.push(m);
    if let Some(id) = c {
        lemma_node_index_found(nodes, id);
        lemma_node_index_found(n2, id);
        match node_index(nodes, id) {
            None => {
                assert(forall|j: int| 0 <= j < n2.len() ==> n2[j].id != id);
                lemma_node_index_none(n2, id);
            },
            Some(i) => {
                lemma_node_index_first(n2, id, i);
                if fuel > 0 {
                    lemma_walk_unchanged_by_fresh(nodes, m, nodes[i].parent_id, (fuel - 1) as nat);
                }
            },
        }
    }
}

proof fn lemma_walk_ends_more_fuel(nodes: Seq<ChatMessage>, c: Option<u128>, fuel: nat, more: nat)
    requires
        walk_ends(nodes, c, fuel),
        fuel <= more,
    ensures
        walk_ends(nodes, c, more),
        walk_up(nodes, c, more) == walk_up(nodes, c, fuel),
    decreases fuel,
{
    if let Some(id) = c {
        if let Some(i) = node_index(nodes, id) {
            lemma_walk_ends_more_fuel(nodes, nodes[i].parent_id, (fuel - 1) as nat, (more - 1) as nat);
        }
    }
}

/// Adding a message with a fresh id under the current node extends the active
/// branch by that message: the new branch is the old one followed by the
/// message.  (An id is fresh when no message has it as id or as parent.)
pub proof fn law_add_message_extends_branch(nodes: Seq<ChatMessage>, current: Option<u128>, message: ChatMessage, id: u128)
    requires
        walk_ends(nodes, current, nodes.len()),
        current != Some(id),
        forall|j: int| 0 <= j < nodes.len() ==> nodes[j].id != id && nodes[j].parent_id != Some(id),
    ensures
        active_branch(upsert(nodes, linked(message, id, new_parent(None, current))), Some(id))
            == active_branch(nodes, current).push(linked(message, id, current)),
{
    let m = linked(message, id, current);
    lemma_node_index_none(nodes, id);
    let n2 = nodes.push(m);
    assert(upsert(nodes, m) == n2);
    lemma_node_index_first(n2, id, nodes.len() as int);
    lemma_walk_unchanged_by_fresh(nodes, m, current, nodes.len());
    assert(walk_up(n2, Some(id), n2.len()) == seq![m] + walk_up(n2, current, nodes.len()));
    assert((seq![m] + walk_up(nodes, current, nodes.len())).reverse() =~= walk_up(nodes, current, nodes.len()).reverse().push(m));
}

/// The messages `p[0]`, ..., `p.last()` form a line: each of them but the
/// last has exactly one child, the next one.
pub open spec fn linear_path(nodes: Seq<ChatMessage>, p: Seq<u128>) -> bool {
    forall|i: int| 0 <= i < p.len() - 1 ==> #[trigger] children(nodes, p[i]).len() == 1 && children(nodes, p[i])[0] == p[i + 1]
}

/// The linear descent from a message (what jumping to it shows as current)
/// ends at a message with no child or with two or more, and is reached from
/// the start through messages that each have exactly one child.
pub proof fn law_descent_stops_at_fork_or_leaf(nodes: Seq<ChatMessage>, start: u128, fuel: nat)
    requires
        descent_ends(nodes, start, fuel),
    ensures
        children(nodes, descend(nodes, start, fuel)).len() != 1,
        exists|p: Seq<u128>| p.len() >= 1 && p[0] == start && #[trigger] p.last() == descend(nodes, start, fuel) && linear_path(nodes, p),
    decreases fuel,
{
    let ch = children(nodes, start);
    if ch.len() != 1 {
        let p = seq![start];
        assert(linear_path(nodes, p));
        assert(p.last() == descend(nodes, start, fuel));
    } else {
        let f = (fuel - 1) as nat;
        law_descent_stops_at_fork_or_leaf(nodes, ch[0], f);
        let q = choose|q: Seq<u128>| q.len() >= 1 && q[0] == ch[0] && #[trigger] q.last() == descend(nodes, ch[0], f) && linear_path(nodes, q);
        let p = seq![start] + q;
        assert forall|i: int| 0 <= i < p.len() - 1 implies #[trigger] children(nodes, p[i]).len() == 1 && children(nodes, p[i])[0] == p[i + 1] by {
            if i > 0 {
                assert(p[i] == q[i - 1]);
                assert(p[i + 1] == q[i]);
            } else {
                assert(p[1] == q[0]);
            }
        }
        assert(p.last() == q.last());
        assert(p.last() == descend(nodes, start, fuel));
    }
}

/// After a reset the active branch is empty.
pub proof fn law_reset_empties_branch(nodes: Seq<ChatMessage>, current: Option<u128>)
    requires
        nodes.len() == 0,
        current is None,
    ensures
        active_branch(nodes, current).len() == 0,
{
}

proof fn lemma_migrated_walk(history: Seq<ChatMessage>, ids: Seq<u128>, k: int, fuel: nat)
    requires
        ids.len() == history.len(),
        0 <= k < history.len(),
        fuel >= k + 1,
        forall|a: int, b: int| 0 <= a < b < ids.len() ==> ids[a] != ids[b],
    ensures
        walk_up(migrated_nodes(history, ids), Some(ids[k]), fuel) =~= migrated_nodes(history, ids).take(k + 1).reverse(),
        walk_ends(migrated_nodes(history, ids), Some(ids[k]), fuel),
    decreases k,
{
    let nodes = migrated_nodes(history, ids);
    assert(distinct_ids(nodes));
    lemma_node_index_distinct(nodes, ids[k], k);
    assert(nodes[k].id == ids[k]);
    assert(walk_up(nodes, Some(ids[k]), fuel) == seq![nodes[k]] + walk_up(nodes, nodes[k].parent_id, (fuel - 1) as nat));
    if k > 0 {
        assert(nodes[k].parent_id == Some(ids[k - 1]));
        lemma_migrated_walk(history, ids, k - 1, (fuel - 1) as nat);
        assert(nodes.take(k + 1).reverse() =~= seq![nodes[k]] + nodes.take(k).reverse());
        assert(walk_ends(nodes, nodes[k].parent_id, (fuel - 1) as nat));
        assert(walk_ends(nodes, Some(ids[k]), fuel));
    } else {
        assert(walk_ends(nodes, None, (fuel - 1) as nat));
        assert(walk_ends(nodes, Some(ids[k]), fuel));
        assert(nodes[k].parent_id == None::<u128>);
        assert(walk_up(nodes, None, (fuel - 1) as nat) =~= seq![]);
        assert(nodes.take(k + 1).reverse() =~= seq![nodes[k]]);
    }
}

/// Migrating a linear history (with distinct new ids) keeps the conversation:
/// the active branch of the migrated chat is the migrated history, message by
/// message in the same order.
pub proof fn law_migration_keeps_history(history: Seq<ChatMessage>, ids: Seq<u128>)
    requires
        ids.len() == history.len(),
        history.len() > 0,
        forall|a: int, b: int| 0 <= a < b < ids.len() ==> ids[a] != ids[b],
    ensures
        walk_ends(migrated_nodes(history, ids), Some(ids.last()), history.len()),
        active_branch(migrated_nodes(history, ids), Some(ids.last())) == migrated_nodes(history, ids),
        forall|i: int| 0 <= i < history.len() ==> (#[trigger] active_branch(migrated_nodes(history, ids), Some(ids.last()))[i]).content == history[i].content
            && active_branch(migrated_nodes(history, ids), Some(ids.last()))[i].role == history[i].role,
{
    let nodes = migrated_nodes(history, ids);
    let n = history.len() as int;
    lemma_migrated_walk(history, ids, n - 1, history.len());
    assert(nodes.take(n) =~= nodes);
    assert(nodes.take(n).reverse().reverse() =~= nodes);
}

proof fn lemma_node_index_update(nodes: Seq<ChatMessage>, i: int, e: ChatMessage, id: u128)
    requires
        0 <= i < nodes.len(),
        e.id == nodes[i].id,
    ensures
        node_index(nodes.update(i, e), id) == node_index(nodes, id),
    decreases nodes.len(),
{
    let n2 = nodes.update(i, e);
    if i < nodes.len() - 1 {
        assert(n2.drop_last() =~= nodes.drop_last().update(i, e));
        lemma_node_index_update(nodes.drop_last(), i, e, id);
    } else {
        assert(n2.drop_last() =~= nodes.drop_last());
    }
}

proof fn lemma_walk_update(nodes: Seq<ChatMessage>, i: int, e: ChatMessage, c: Option<u128>, fuel: nat)
    requires
        node_index(nodes, e.id) == Some(i),
        e.parent_id == nodes[i].parent_id,
    ensures
        walk_up(nodes.update(i, e), c, fuel) =~= walk_up(nodes, c, fuel).map_values(
            |x: ChatMessage| if x.id == e.id { e } else { x },
        ),
    decreases fuel,
{
    lemma_node_index_found(nodes, e.id);
    let n2 = nodes.update(i, e);
    if fuel > 0 {
        if let Some(id) = c {
            lemma_node_index_update(nodes, i, e, id);
            lemma_node_index_found(nodes, id);
            if let Some(j) = node_index(nodes, id) {
                lemma_walk_update(nodes, i, e, nodes[j].parent_id, (fuel - 1) as nat);
                let rest = walk_up(nodes, nodes[j].parent_id, (fuel - 1) as nat);
                let f = |x: ChatMessage| if x.id == e.id { e } else { x };
                assert((seq![nodes[j]] + rest).map_values(f) =~= seq![f(nodes[j])] + rest.map_values(f));
                if j != i {
                    assert(id != e.id);
                }
            }
        }
    }
}

/// Editing a message (its content or its visibility) keeps the active
/// branch: the same messages in the same order, the edited one replaced.
pub proof fn law_edit_keeps_branch(nodes: Seq<ChatMessage>, current: Option<u128>, message_id: u128, edited: ChatMessage)
    requires
        node_index(nodes, message_id) is Some,
        edited.id == message_id,
        edited.parent_id == nodes[node_index(nodes, message_id)->0].parent_id,
    ensures
        active_branch(nodes.update(node_index(nodes, message_id)->0, edited), current)
            == active_branch(nodes, current).map_values(|x: ChatMessage| if x.id == message_id { edited } else { x }),
{
    let i = node_index(nodes, message_id)->0;
    lemma_node_index_found(nodes, message_id);
    let n2 = nodes.update(i, edited);
    assert(n2.len() == nodes.len());
    lemma_walk_update(nodes, i, edited, current, nodes.len());
    let w = walk_up(nodes, current, nodes.len());
    let w2 = walk_up(n2, current, nodes.len());
    let f = |x: ChatMessage| if x.id == message_id { edited } else { x };
    assert(w2 =~= w.map_values(f));
    assert(active_branch(n2, current) == w2.reverse());
    assert(w.map_values(f).reverse() =~= w.reverse().map_values(f));
}

} // verus!
