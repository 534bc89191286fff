//! The project settings that the library reads and updates.
use vstd::prelude::*;

verus! {

/// What is recorded about the embedding stored for one source file.
pub struct EmbeddingMetadata {
    pub file_path: String,
    /// When the embedding was stored, in nanoseconds since the Unix epoch.
    pub last_updated: i128,
    pub vector_id: String,
    pub git_blob_hash: Option<String>,
}

/// A source file read from a project.
pub struct ProjectFile {
    pub path: String,
    pub content: String,
    pub last_modified: u64,
}

/// A project's settings.  The maps of the settings file are held as lists of
/// `(key, value)` pairs in the order in which they are walked.  Each list holds a
/// key at most once (`Project::wf`).
pub struct Project {
    pub name: String,
    pub languages: String,
    pub source_dir: String,
    pub model: String,
    pub provider: String,
    pub specific_model: Option<String>,
    pub file_descriptions: Vec<(String, String)>,
    pub embeddings: Vec<(String, EmbeddingMetadata)>,
    pub git_integration_enabled: bool,
    pub default_use_yaml: bool,
    pub file_yaml_override: Vec<(String, bool)>,
}

/// The keys of a list of pairs.
pub open spec fn keys<V>(entries: Seq<(String, V)>) -> Seq<Seq<char>> {
    entries.map_values(|e: (String, V)| e.0@)
}

/// Whether some pair of `entries` has the key `k`.
pub open spec fn has_key<V>(entries: Seq<(String, V)>, k: Seq<char>) -> bool {
    exists|i: int| 0 <= i < entries.len() && #[trigger] entries[i].0@ == k
}

/// `entries` without the pairs whose key is `k`.
pub open spec fn without_key<V>(entries: Seq<(String, V)>, k: Seq<char>) -> Seq<(String, V)> {
    entries.filter(|e: (String, V)| e.0@ != k)
}

/// The value of the first pair with key `k`.
pub open spec fn lookup<V>(entries: Seq<(String, V)>, k: Seq<char>) -> Option<V>
    decreases entries.len(),
{
    if entries.len() == 0 {
        None
    } else if entries[0].0@ == k {
        Some(entries[0].1)
    } else {
        lookup(entries.drop_first(), k)
    }
}

/// Whether a list of pairs has the key `k`.
pub fn contains_key<V>(entries: &Vec<(String, V)>, k: &String) -> (r: bool)
    ensures
        r == has_key(entries@, k@),
{
    let mut i: usize = 0;
    while i < entries.len()
        invariant
            i <= entries.len(),
            forall|j: int| 0 <= j < i ==> entries@[j].0@ != k@,
        decreases entries.len() - i,
    {
        if entries[i].0.eq(k) {
            return true;
        }
        i += 1;
    }
    false
}

/// The index of the first pair with key `k`.
pub fn position_of<V>(entries: &Vec<(String, V)>, k: &String) -> (r: Option<usize>)
    ensures
        r matches Some(i) ==> i < entries.len() && entries@[i as int].0@ == k@
            && lookup(entries@, k@) == Some(entries@[i as int].1)
            && forall|j: int| 0 <= j < i ==> entries@[j].0@ != k@,
        r is None ==> !has_key(entries@, k@) && lookup(entries@, k@) is None,
{
    let mut i: usize = 0;
    assert(entries@.skip(0) =~= entries@);
    while i < entries.len()
        invariant
            i <= entries.len(),
            forall|j: int| 0 <= j < i ==> entries@[j].0@ != k@,
            lookup(entries@, k@) == lookup(entries@.skip(i as int), k@),
        decreases entries.len() - i,
    {
        assert(entries@.skip(i as int).drop_first() =~= entries@.skip(i + 1));
        if entries[i].0.eq(k) {
            return Some(i);
        }
        i += 1;
    }
    assert(entries@.skip(i as int) =~= Seq::<(String, V)>::empty());
    None
}

pub proof fn lemma_lookup_update<V>(entries: Seq<(String, V)>, i: int, key: String, value: V, k: Seq<char>)
    requires
        0 <= i < entries.len(),
        entries[i].0@ == key@,
        forall|j: int| 0 <= j < i ==> entries[j].0@ != key@,
    ensures
        lookup(entries.update(i, (key, value)), k) == if k == key@ { Some(value) } else { lookup(entries, k) },
    decreases entries.len(),
{
    let u = entries.update(i, (key, value));
    if i > 0 {
        lemma_lookup_update(entries.drop_first(), i - 1, key, value, k);
        assert(u.drop_first() =~= entries.drop_first().update(i - 1, (key, value)));
        assert(u[0] == entries[0]);
    } else {
        assert(u.drop_first() =~= entries.drop_first());
        assert(u[0] == (key, value));
    }
}

pub proof fn lemma_lookup_push<V>(entries: Seq<(String, V)>, key: String, value: V, k: Seq<char>)
    requires
        !has_key(entries, key@),
    ensures
        lookup(entries.push((key, value)), k) == if k == key@ { Some(value) } else { lookup(entries, k) },
    decreases entries.len(),
{
    let p = entries.push((key, value));
    if entries.len() == 0 {
        assert(p[0] == (key, value));
        assert(p.drop_first() =~= Seq::<(String, V)>::empty());
        assert(lookup(p, k) == if p[0].0@ == k { Some(p[0].1) } else { lookup(p.drop_first(), k) });
    } else {
        assert(p[0] == entries[0]);
        assert(entries[0].0@ != key@);
        assert(!has_key(entries.drop_first(), key@)) by {
            if has_key(entries.drop_first(), key@) {
                let w = choose|w: int| 0 <= w < entries.drop_first().len() && #[trigger] entries.drop_first()[w].0@ == key@;
                assert(entries[w + 1].0@ == key@);
            }
        }
        lemma_lookup_push(entries.drop_first(), key, value, k);
        assert(p.drop_first() =~= entries.drop_first().push((key, value)));
        assert(lookup(p, k) == if p[0].0@ == k { Some(p[0].1) } else { lookup(p.drop_first(), k) });
        assert(lookup(entries, k) == if entries[0].0@ == k { Some(entries[0].1) } else { lookup(entries.drop_first(), k) });
    }
}

/// Stores `value` under `key`: the pair with that key gets the new value, or
/// a pair is added at the end if there is none.
pub fn upsert<V>(entries: &mut Vec<(String, V)>, key: String, value: V)
    ensures
        forall|k: Seq<char>| #[trigger] lookup(final(entries)@, k) == if k == key@ { Some(value) } else { lookup(old(entries)@, k) },
        keys(final(entries)@) == if has_key(old(entries)@, key@) { keys(old(entries)@) } else { keys(old(entries)@).push(key@) },
{
    let ghost e0 = entries@;
    let ghost kv = key@;
    match position_of(entries, &key) {
        Some(i) => {
            let ghost kk = key;
            let ghost vv = value;
            entries.set(i, (key, value));
            proof {
                assert(entries@ == e0.update(i as int, (kk, vv)));
                assert forall|k: Seq<char>| #[trigger] lookup(entries@, k) == if k == kv { Some(vv) } else { lookup(e0, k) } by {
                    lemma_lookup_update(e0, i as int, kk, vv, k);
                }
                assert(has_key(e0, kv));
                assert(keys(entries@) =~= keys(e0));
            }
        },
        None => {
            let ghost kk = key;
            let ghost vv = value;
            entries.push((key, value));
            proof {
                assert(entries@ == e0.push((kk, vv)));
                assert forall|k: Seq<char>| #[trigger] lookup(entries@, k) == if k == kv { Some(vv) } else { lookup(e0, k) } by {
                    lemma_lookup_push(e0, kk, vv, k);
                }
                assert(keys(entries@) =~= keys(e0).push(kv));
            }
        },
    }
}

/// No key occurs twice in a list of pairs (the lists stand for maps).
pub open spec fn unique_keys<V>(entries: Seq<(String, V)>) -> bool {
    forall|i: int, j: int| 0 <= i < j < entries.len() ==> entries[i].0@ != entries[j].0@
}

impl Project {
    /// The settings' maps hold each key once.
    pub open spec fn wf(&self) -> bool {
        &&& unique_keys(self.file_descriptions@)
        &&& unique_keys(self.embeddings@)
        &&& unique_keys(self.file_yaml_override@)
    }
}

/// Two projects that agree in every setting except their embedding records.
pub open spec fn same_but_embeddings(a: Project, b: Project) -> bool {
    &&& a.name == b.name
    &&& a.languages == b.languages
    &&& a.source_dir == b.source_dir
    &&& a.model == b.model
    &&& a.provider == b.provider
    &&& a.specific_model == b.specific_model
    &&& a.file_descriptions == b.file_descriptions
    &&& a.git_integration_enabled == b.git_integration_enabled
    &&& a.default_use_yaml == b.default_use_yaml
    &&& a.file_yaml_override == b.file_yaml_override
}

/// Keys are unique exactly when the key list has no repetition.
pub proof fn lemma_unique_keys_by_keys<V>(e: Seq<(String, V)>)
    ensures
        unique_keys(e) <==> forall|i: int, j: int| 0 <= i < j < keys(e).len() ==> keys(e)[i] != keys(e)[j],
{
    assert(keys(e).len() == e.len());
    assert forall|i: int| 0 <= i < e.len() implies #[trigger] keys(e)[i] == e[i].0@ by {}
    if unique_keys(e) {
        assert forall|i: int, j: int| 0 <= i < j < keys(e).len() implies keys(e)[i] != keys(e)[j] by {
            assert(keys(e)[i] == e[i].0@ && keys(e)[j] == e[j].0@);
        }
    }
    if forall|i: int, j: int| 0 <= i < j < keys(e).len() ==> keys(e)[i] != keys(e)[j] {
        assert forall|i: int, j: int| 0 <= i < j < e.len() implies e[i].0@ != e[j].0@ by {
            assert(keys(e)[i] == e[i].0@ && keys(e)[j] == e[j].0@);
        }
    }
}

/// Storing a value under a key keeps keys unique.
pub proof fn lemma_upsert_unique<V>(old_e: Seq<(String, V)>, new_e: Seq<(String, V)>, k: Seq<char>)
    requires
        unique_keys(old_e),
        keys(new_e) == if has_key(old_e, k) { keys(old_e) } else { keys(old_e).push(k) },
    ensures
        unique_keys(new_e),
{
    lemma_unique_keys_by_keys(old_e);
    lemma_unique_keys_by_keys(new_e);
    if !has_key(old_e, k) {
        assert forall|i: int| 0 <= i < keys(old_e).len() implies #[trigger] keys(old_e)[i] != k by {
            assert(old_e[i].0@ == keys(old_e)[i]);
        }
    }
}

/// Dropping the pairs with one key keeps keys unique, and keeps only pairs
/// that were there.
pub proof fn lemma_without_key_unique<V>(e: Seq<(String, V)>, k: Seq<char>)
    requires
        unique_keys(e),
    ensures
        unique_keys(without_key(e, k)),
        forall|x: (String, V)| #[trigger] without_key(e, k).contains(x) ==> e.contains(x),
    decreases e.len(),
{
    reveal(Seq::filter);
    if e.len() > 0 {
        let d = e.drop_last();
        lemma_without_key_unique(d, k);
        let sub = without_key(d, k);
        assert(without_key(e, k) == if e.last().0@ != k { sub.push(e.last()) } else { sub });
        assert forall|x: (String, V)| d.contains(x) implies e.contains(x) by {
            let j = choose|j: int| 0 <= j < d.len() && d[j] == x;
            assert(e[j] == x);
        }
        if e.last().0@ != k {
            let r = sub.push(e.last());
            assert forall|i: int, j: int| 0 <= i < j < r.len() implies r[i].0@ != r[j].0@ by {
                if j == r.len() - 1 {
                    assert(sub.contains(sub[i]));
                    let w = choose|w: int| 0 <= w < d.len() && d[w] == sub[i];
                    assert(e[w] == sub[i]);
                    assert(e[e.len() - 1] == e.last());
                } else {
                    assert(r[i] == sub[i] && r[j] == sub[j]);
                }
            }
            assert forall|x: (String, V)| r.contains(x) implies e.contains(x) by {
                let w = choose|w: int| 0 <= w < r.len() && r[w] == x;
                if w == r.len() - 1 {
                    assert(e[e.len() - 1] == x);
                } else {
                    assert(sub.contains(r[w]));
                }
            }
        }
    }
}

} // verus!
