//! The API keys kept in the `.env` file: reading them from its text and
//! writing the text for them.
use vstd::prelude::*;
use crate::text::{
    append_str, chars_of, find, find_from, has_prefix_str, lemma_find_from_bounds, lines,
    lines_exec, second_piece, second_piece_str, starts_with, string_of, strip_cr,
};

verus! {

/// The keys the settings page shows and saves.
pub struct EnvKeys {
    pub open_ai_key: String,
    pub open_ai_org: String,
    pub gemini_api_key: String,
    pub anthropic_api_key: String,
}

/// The keys as values.
pub struct EnvView {
    pub open_ai_key: Seq<char>,
    pub open_ai_org: Seq<char>,
    pub gemini_api_key: Seq<char>,
    pub anthropic_api_key: Seq<char>,
}

impl EnvKeys {
    /// The keys as values.
    pub open spec fn view_keys(&self) -> EnvView {
        EnvView {
            open_ai_key: self.open_ai_key@,
            open_ai_org: self.open_ai_org@,
            gemini_api_key: self.gemini_api_key@,
            anthropic_api_key: self.anthropic_api_key@,
        }
    }
}

/// The value on a `NAME=value` line: the text between the first and the
/// second `=` (empty when there is no `=`).
pub open spec fn env_value(line: Seq<char>) -> Seq<char> {
    match second_piece(line, "="@) {
        Some(v) => v,
        None => seq![],
    }
}

/// One line of the file: a line for one of the keys sets it.
pub open spec fn env_step(st: EnvView, line: Seq<char>) -> EnvView {
    if starts_with(line, "OPEN_AI_KEY="@) {
        EnvView { open_ai_key: env_value(line), ..st }
    } else if starts_with(line, "GEMINI_API_KEY="@) {
        EnvView { gemini_api_key: env_value(line), ..st }
    } else if starts_with(line, "ANTHROPIC_API_KEY="@) {
        EnvView { anthropic_api_key: env_value(line), ..st }
    } else if starts_with(line, "OPEN_AI_ORG="@) {
        EnvView { open_ai_org: env_value(line), ..st }
    } else {
        st
    }
}

/// The keys read from lines, starting from `st`.
pub open spec fn env_read(ls: Seq<Seq<char>>, st: EnvView) -> EnvView
    decreases ls.len(),
{
    if ls.len() == 0 {
        st
    } else {
        env_read(ls.drop_first(), env_step(st, ls[0]))
    }
}

/// No key set.
pub open spec fn no_keys() -> EnvView {
    EnvView { open_ai_key: seq![], open_ai_org: seq![], gemini_api_key: seq![], anthropic_api_key: seq![] }
}

/// The keys in the text of a `.env` file; a key without a line is empty,
/// and a later line for a key wins.
pub open spec fn env_keys_of(content: Seq<char>) -> EnvView {
    env_read(lines(content), no_keys())
}

/// `NAME=value` and a newline, for a value that is not empty.
pub open spec fn env_line(name: Seq<char>, value: Seq<char>) -> Seq<char> {
    if value.len() > 0 {
        name + "="@ + value + "\n"@
    } else {
        seq![]
    }
}

/// The text of the `.env` file for the keys: one line per key that is not
/// empty, in the order key, organization, Gemini, Anthropic.
pub open spec fn env_text(k: EnvView) -> Seq<char> {
    env_line("OPEN_AI_KEY"@, k.open_ai_key) + env_line("OPEN_AI_ORG"@, k.open_ai_org)
        + env_line("GEMINI_API_KEY"@, k.gemini_api_key) + env_line("ANTHROPIC_API_KEY"@, k.anthropic_api_key)
}

/// The keys in the text of a `.env` file.
pub fn read_env_keys(content: &str) -> (r: EnvKeys)
    ensures
        r.view_keys() == env_keys_of(content@),
{
    let cv = chars_of(content);
    let ls = lines_exec(&cv);
    let ghost lsv = lines(content@);
    let mut r = EnvKeys {
        open_ai_key: String::new(),
        open_ai_org: String::new(),
        gemini_api_key: String::new(),
        anthropic_api_key: String::new(),
    };
    assert(r.view_keys() == no_keys());
    assert(lsv.skip(0) =~= lsv);
    let mut i: usize = 0;
    while i < ls.len()
        invariant
            i <= ls.len(),
            lsv == lines(content@),
            ls@.len() == lsv.len(),
            forall|k: int| 0 <= k < ls@.len() ==> #[trigger] ls@[k]@ == lsv[k],
            env_keys_of(content@) == env_read(lsv.skip(i as int), r.view_keys()),
        decreases ls.len() - i,
    {
        assert(lsv.skip(i as int)[0] == ls@[i as int]@);
        assert(lsv.skip(i as int).drop_first() =~= lsv.skip(i + 1));
        let line = &ls[i];
        let value = match second_piece_str(line, "=") {
            Some(v) => string_of(&v),
            None => String::new(),
        };
        if has_prefix_str(line, "OPEN_AI_KEY=") {
            r.open_ai_key = value;
        } else if has_prefix_str(line, "GEMINI_API_KEY=") {
            r.gemini_api_key = value;
        } else if has_prefix_str(line, "ANTHROPIC_API_KEY=") {
            r.anthropic_api_key = value;
        } else if has_prefix_str(line, "OPEN_AI_ORG=") {
            r.open_ai_org = value;
        }
        i += 1;
    }
    assert(lsv.skip(ls.len() as int) =~= Seq::<Seq<char>>::empty());
    r
}

fn push_env_line(c: &mut Vec<char>, name: &str, value: &String)
    ensures
        final(c)@ == old(c)@ + env_line(name@, value@),
{
    let v = chars_of(value.as_str());
    if v.len() > 0 {
        append_str(c, name);
        append_str(c, "=");
        append_str(c, value.as_str());
        append_str(c, "\n");
    } else {
        assert(old(c)@ + env_line(name@, value@) =~= old(c)@);
    }
}

/// The text of the `.env` file for the keys.
pub fn env_file_content(keys: &EnvKeys) -> (r: String)
    ensures
        r@ == env_text(keys.view_keys()),
{
    let mut c: Vec<char> = Vec::new();
    push_env_line(&mut c, "OPEN_AI_KEY", &keys.open_ai_key);
    push_env_line(&mut c, "OPEN_AI_ORG", &keys.open_ai_org);
    push_env_line(&mut c, "GEMINI_API_KEY", &keys.gemini_api_key);
    push_env_line(&mut c, "ANTHROPIC_API_KEY", &keys.anthropic_api_key);
    assert(c@ =~= env_text(keys.view_keys()));
    string_of(&c)
}

// ------------------------------------------------------------------------
// Reading back what was written
// ------------------------------------------------------------------------
/// A value that survives a line of the file: no `=`, no newline, and no
/// carriage return at its end.
pub open spec fn storable(v: Seq<char>) -> bool {
    &&& forall|i: int| 0 <= i < v.len() ==> v[i] != '=' && v[i] != '\n'
    &&& (v.len() > 0 ==> v.last() != '\r')
}

proof fn lemma_find_char(s: Seq<char>, c: char, from: int, k: int)
    requires
        0 <= from <= k < s.len(),
        s[k] == c,
        forall|j: int| from <= j < k ==> s[j] != c,
    ensures
        find_from(s, seq![c], from) == Some(k),
    decreases k - from,
{
    assert(s.skip(from).take(1) =~= seq![s[from]]);
    if from < k {
        assert(!starts_with(s.skip(from), seq![c])) by {
            if starts_with(s.skip(from), seq![c]) {
                assert(s.skip(from).take(1)[0] == seq![c][0]);
            }
        }
        lemma_find_char(s, c, from + 1, k);
    } else {
        assert(s.skip(from).take(1) =~= seq![c]);
        assert(starts_with(s.skip(from), seq![c]));
    }
}

proof fn lemma_no_char(s: Seq<char>, c: char, from: int)
    requires
        0 <= from,
        forall|j: int| from <= j < s.len() ==> s[j] != c,
    ensures
        find_from(s, seq![c], from) is None,
    decreases s.len() - from,
{
    if from + 1 <= s.len() {
        assert(s.skip(from).take(1) =~= seq![s[from]]);
        assert(!starts_with(s.skip(from), seq![c])) by {
            if starts_with(s.skip(from), seq![c]) {
                assert(s.skip(from).take(1)[0] == seq![c][0]);
            }
        }
        lemma_no_char(s, c, from + 1);
    }
}

proof fn lemma_lines_cons(a: Seq<char>, rest: Seq<char>)
    requires
        forall|j: int| 0 <= j < a.len() ==> a[j] != '\n',
    ensures
        lines(a + "\n"@ + rest) == seq![strip_cr(a)] + lines(rest),
{
    reveal_strlit("\n");
    let s = a + "\n"@ + rest;
    lemma_find_char(s, '\n', 0, a.len() as int);
    assert(s.take(a.len() as int) =~= a);
    assert(s.skip(a.len() as int + 1) =~= rest);
}

/// `NAME=value` read back.
proof fn lemma_read_line(name: Seq<char>, v: Seq<char>)
    requires
        storable(v),
        forall|j: int| 0 <= j < name.len() ==> name[j] != '=' && name[j] != '\n',
    ensures
        env_value(name + "="@ + v) == v,
        strip_cr(name + "="@ + v) == name + "="@ + v,
        forall|j: int| 0 <= j < (name + "="@ + v).len() ==> (name + "="@ + v)[j] != '\n',
{
    reveal_strlit("=");
    let line = name + "="@ + v;
    lemma_find_char(line, '=', 0, name.len() as int);
    assert(line.skip(name.len() as int + 1) =~= v);
    lemma_no_char(v, '=', 0);
    assert("="@ == seq!['=']);
}

proof fn lemma_lines_of_line(name: Seq<char>, v: Seq<char>, rest: Seq<char>)
    requires
        storable(v),
        forall|j: int| 0 <= j < name.len() ==> name[j] != '=' && name[j] != '\n',
    ensures
        lines(env_line(name, v) + rest) == (if v.len() > 0 { seq![name + "="@ + v] } else { seq![] }) + lines(rest),
{
    lemma_read_line(name, v);
    if v.len() > 0 {
        assert(env_line(name, v) + rest =~= (name + "="@ + v) + "\n"@ + rest);
        lemma_lines_cons(name + "="@ + v, rest);
    } else {
        assert(env_line(name, v) + rest =~= rest);
        assert(seq![] + lines(rest) =~= lines(rest));
    }
}

/// What the settings page saves is what it shows when it reads the file
/// again: every key whose value has no `=`, no newline and no trailing
/// carriage return comes back as it was written (an empty key stays empty).
pub proof fn law_env_keys_round_trip(k: EnvView)
    requires
        storable(k.open_ai_key),
        storable(k.open_ai_org),
        storable(k.gemini_api_key),
        storable(k.anthropic_api_key),
    ensures
        env_keys_of(env_text(k)) == k,
{
    reveal_strlit("OPEN_AI_KEY");
    reveal_strlit("OPEN_AI_ORG");
    reveal_strlit("GEMINI_API_KEY");
    reveal_strlit("ANTHROPIC_API_KEY");
    reveal_strlit("OPEN_AI_KEY=");
    reveal_strlit("OPEN_AI_ORG=");
    reveal_strlit("GEMINI_API_KEY=");
    reveal_strlit("ANTHROPIC_API_KEY=");
    reveal_strlit("=");
    let n1 = "OPEN_AI_KEY"@;
    let n2 = "OPEN_AI_ORG"@;
    let n3 = "GEMINI_API_KEY"@;
    let n4 = "ANTHROPIC_API_KEY"@;
    let l4 = env_line(n4, k.anthropic_api_key);
    let l3 = env_line(n3, k.gemini_api_key);
    let l2 = env_line(n2, k.open_ai_org);
    let l1 = env_line(n1, k.open_ai_key);
    assert(env_text(k) =~= l1 + (l2 + (l3 + (l4 + seq![]))));
    assert(lines(Seq::<char>::empty()) == Seq::<Seq<char>>::empty());
    lemma_lines_of_line(n4, k.anthropic_api_key, seq![]);
    lemma_lines_of_line(n3, k.gemini_api_key, l4 + seq![]);
    lemma_lines_of_line(n2, k.open_ai_org, l3 + (l4 + seq![]));
    lemma_lines_of_line(n1, k.open_ai_key, l2 + (l3 + (l4 + seq![])));
    let a1 = n1 + "="@ + k.open_ai_key;
    let a2 = n2 + "="@ + k.open_ai_org;
    let a3 = n3 + "="@ + k.gemini_api_key;
    let a4 = n4 + "="@ + k.anthropic_api_key;
    lemma_read_line(n1, k.open_ai_key);
    lemma_read_line(n2, k.open_ai_org);
    lemma_read_line(n3, k.gemini_api_key);
    lemma_read_line(n4, k.anthropic_api_key);
    assert(starts_with(a1, "OPEN_AI_KEY="@)) by { assert(a1.take(12) =~= "OPEN_AI_KEY="@); }
    assert(!starts_with(a2, "OPEN_AI_KEY="@)) by { assert(a2[8] == 'O'); assert("OPEN_AI_KEY="@[8] == 'K'); if starts_with(a2, "OPEN_AI_KEY="@) { assert(a2.take(12)[8] == a2[8]); } }
    assert(!starts_with(a2, "GEMINI_API_KEY="@)) by { assert(a2[0] == 'O'); if starts_with(a2, "GEMINI_API_KEY="@) { assert(a2.take(15)[0] == a2[0]); } }
    assert(!starts_with(a2, "ANTHROPIC_API_KEY="@)) by { assert(a2[0] == 'O'); if starts_with(a2, "ANTHROPIC_API_KEY="@) { assert(a2.take(18)[0] == a2[0]); } }
    assert(starts_with(a2, "OPEN_AI_ORG="@)) by { assert(a2.take(12) =~= "OPEN_AI_ORG="@); }
    assert(!starts_with(a3, "OPEN_AI_KEY="@)) by { assert(a3[0] == 'G'); if starts_with(a3, "OPEN_AI_KEY="@) { assert(a3.take(12)[0] == a3[0]); } }
    assert(starts_with(a3, "GEMINI_API_KEY="@)) by { assert(a3.take(15) =~= "GEMINI_API_KEY="@); }
    assert(!starts_with(a4, "OPEN_AI_KEY="@)) by { assert(a4[0] == 'A'); if starts_with(a4, "OPEN_AI_KEY="@) { assert(a4.take(12)[0] == a4[0]); } }
    assert(!starts_with(a4, "GEMINI_API_KEY="@)) by { assert(a4[0] == 'A'); if starts_with(a4, "GEMINI_API_KEY="@) { assert(a4.take(15)[0] == a4[0]); } }
    assert(starts_with(a4, "ANTHROPIC_API_KEY="@)) by { assert(a4.take(18) =~= "ANTHROPIC_API_KEY="@); }
    let s0 = no_keys();
    let s1 = if k.open_ai_key.len() > 0 { env_step(s0, a1) } else { s0 };
    let s2 = if k.open_ai_org.len() > 0 { env_step(s1, a2) } else { s1 };
    let s3 = if k.gemini_api_key.len() > 0 { env_step(s2, a3) } else { s2 };
    let s4 = if k.anthropic_api_key.len() > 0 { env_step(s3, a4) } else { s3 };
    let q4 = if k.anthropic_api_key.len() > 0 { seq![a4] } else { seq![] };
    let q3 = (if k.gemini_api_key.len() > 0 { seq![a3] } else { seq![] }) + q4;
    let q2 = (if k.open_ai_org.len() > 0 { seq![a2] } else { seq![] }) + q3;
    let q1 = (if k.open_ai_key.len() > 0 { seq![a1] } else { seq![] }) + q2;
    assert(lines(env_text(k)) =~= q1);
    assert(env_read(q4, s3) == s4) by {
        if k.anthropic_api_key.len() > 0 {
            assert(q4.drop_first() =~= Seq::<Seq<char>>::empty());
            assert(env_read(q4.drop_first(), env_step(s3, a4)) == env_step(s3, a4));
            assert(q4[0] == a4);
        } else {
            assert(q4 =~= Seq::<Seq<char>>::empty());
        }
    }
    assert(env_read(q3, s2) == s4) by {
        if k.gemini_api_key.len() > 0 {
            assert(q3.drop_first() =~= q4);
        } else {
            assert(q3 =~= q4);
        }
    }
    assert(env_read(q2, s1) == s4) by {
        if k.open_ai_org.len() > 0 {
            assert(q2.drop_first() =~= q3);
        } else {
            assert(q2 =~= q3);
        }
    }
    assert(env_read(q1, s0) == s4) by {
        if k.open_ai_key.len() > 0 {
            assert(q1.drop_first() =~= q2);
        } else {
            assert(q1 =~= q2);
        }
    }
    assert(s4 =~= k) by {
        if k.open_ai_key.len() == 0 { assert(k.open_ai_key =~= seq![]); }
        if k.open_ai_org.len() == 0 { assert(k.open_ai_org =~= seq![]); }
        if k.gemini_api_key.len() == 0 { assert(k.gemini_api_key =~= seq![]); }
        if k.anthropic_api_key.len() == 0 { assert(k.anthropic_api_key =~= seq![]); }
    }
}

} // verus!
