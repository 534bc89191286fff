//! HTML escaping of model output and its reverse.
use vstd::prelude::*;
use crate::text::{
    chars_of, join, join_exec, lemma_differ_at, lemma_join_lines, lemma_replace_prefix, lines, lines_exec, replace,
    replace_str, starts_with, string_of,
};

verus! {

/// The text-escape of one character: `&`, `<` and `>` become entities.
pub open spec fn text_entity(c: char) -> Seq<char> {
    if c == '&' {
        "&amp;"@
    } else if c == '<' {
        "&lt;"@
    } else if c == '>' {
        "&gt;"@
    } else {
        seq![c]
    }
}

/// `s` with every character `c` replaced by `f(c)`.
pub open spec fn expand(s: Seq<char>, f: spec_fn(char) -> Seq<char>) -> Seq<char>
    decreases s.len(),
{
    if s.len() == 0 {
        seq![]
    } else {
        f(s[0]) + expand(s.drop_first(), f)
    }
}

/// `s` escaped for use as HTML text.
pub open spec fn encode_text_spec(s: Seq<char>) -> Seq<char> {
    expand(s, |c: char| text_entity(c))
}

/// `html_escape::encode_text`: escapes every `&`, `<` and `>` of `s` as
/// `&amp;`, `&lt;` and `&gt;` and keeps every other character.
#[verifier::external_body]
fn encode_text(s: &str) -> (r: String)
    ensures
        r@ == encode_text_spec(s@),
{
    html_escape::encode_text(s).to_string()
}

/// The escaped form of a model's answer: the text's lines joined with `\n`,
/// escaped as HTML text, with `"` written as `&#34;`.
pub open spec fn escape_html_spec(text: Seq<char>) -> Seq<char> {
    replace(encode_text_spec(join(lines(text), "\n"@)), "\""@, "&#34;"@)
}

/// Escapes a model's answer for display in a page.
pub fn escape_html(text: String) -> (r: String)
    ensures
        r@ == escape_html_spec(text@),
{
    let t = chars_of(text.as_str());
    let ls = lines_exec(&t);
    let nl = chars_of("\n");
    let joined = join_exec(&ls, &nl);
    assert(ls@.map_values(|v: Vec<char>| v@) =~= lines(text@));
    let js = string_of(&joined);
    let enc = encode_text(js.as_str());
    let ev = chars_of(enc.as_str());
    let out = replace_str(&ev, "\"", "&#34;");
    string_of(&out)
}

/// The unescaped form of a text: code-fence entities normalized, then
/// `&lt;`, `&gt;`, `&quot;`, `&#34;`, `&#39;`, `&apos;` and finally `&amp;`
/// replaced by the characters they stand for.
pub open spec fn unescape_html_spec(text: Seq<char>) -> Seq<char> {
    let t0 = replace(text, "&#96;&#96;&#96;"@, "&grave;&grave;&grave;"@);
    let t1 = replace(t0, "&lt;"@, "<"@);
    let t2 = replace(t1, "&gt;"@, ">"@);
    let t3 = replace(t2, "&quot;"@, "\""@);
    let t4 = replace(t3, "&#34;"@, "\""@);
    let t5 = replace(t4, "&#39;"@, "'"@);
    let t6 = replace(t5, "&apos;"@, "'"@);
    replace(t6, "&amp;"@, "&"@)
}

/// Turns the entities of an escaped text back into characters.
pub fn unescape_html(text: String) -> (r: String)
    ensures
        r@ == unescape_html_spec(text@),
{
    let t = chars_of(text.as_str());
    let t0 = replace_str(&t, "&#96;&#96;&#96;", "&grave;&grave;&grave;");
    let t1 = replace_str(&t0, "&lt;", "<");
    let t2 = replace_str(&t1, "&gt;", ">");
    let t3 = replace_str(&t2, "&quot;", "\"");
    let t4 = replace_str(&t3, "&#34;", "\"");
    let t5 = replace_str(&t4, "&#39;", "'");
    let t6 = replace_str(&t5, "&apos;", "'");
    let t7 = replace_str(&t6, "&amp;", "&");
    string_of(&t7)
}

// ------------------------------------------------------------------------
// Escaping and unescaping
// ------------------------------------------------------------------------
/// Whether a replacement of `p` can meet the block `b` only as a whole: `b`
/// is `p`, or lacks `p`'s first character, or has it only in front and is
/// neither a prefix of `p` nor begins with `p`.
pub open spec fn block_fits(b: Seq<char>, p: Seq<char>) -> bool {
    ||| b == p
    ||| !b.contains(p[0])
    ||| (b.len() > 0 && b[0] == p[0] && !b.drop_first().contains(p[0]) && !starts_with(b, p)
        && !starts_with(p, b))
}

/// Replacing `p` in a text made of blocks replaces exactly the blocks equal to `p`.
pub proof fn lemma_replace_blocks(
    u: Seq<char>,
    g: spec_fn(char) -> Seq<char>,
    h: spec_fn(char) -> Seq<char>,
    p: Seq<char>,
    r: Seq<char>,
)
    requires
        p.len() > 0,
        forall|c: char| block_fits(#[trigger] g(c), p),
        forall|c: char| #[trigger] h(c) == (if g(c) == p { r } else { g(c) }),
    ensures
        replace(expand(u, g), p, r) =~= expand(u, h),
    decreases u.len(),
{
    if u.len() == 0 {
        assert(replace(expand(u, g), p, r) =~= Seq::<char>::empty());
    } else {
        let b = g(u[0]);
        let x = expand(u.drop_first(), g);
        let s = b + x;
        lemma_replace_blocks(u.drop_first(), g, h, p, r);
        assert(expand(u, g) == s);
        assert(expand(u, h) == h(u[0]) + expand(u.drop_first(), h));
        assert(block_fits(b, p));
        if b == p {
            assert(s.take(p.len() as int) =~= p);
            assert(s.skip(p.len() as int) =~= x);
            assert(replace(s, p, r) == r + replace(s.skip(p.len() as int), p, r));
        } else if !b.contains(p[0]) {
            lemma_replace_prefix(b, x, p, r);
        } else {
            assert(!starts_with(s, p)) by {
                if starts_with(s, p) {
                    if b.len() <= p.len() {
                        assert forall|i: int| 0 <= i < b.len() implies p.take(b.len() as int)[i]
                            == b[i] by {
                            assert(s.take(p.len() as int)[i] == p[i]);
                        }
                        assert(p.take(b.len() as int) =~= b);
                    } else {
                        assert forall|i: int| 0 <= i < p.len() implies b.take(p.len() as int)[i]
                            == p[i] by {
                            assert(s.take(p.len() as int)[i] == p[i]);
                        }
                        assert(b.take(p.len() as int) =~= p);
                    }
                }
            }
            assert(s.drop_first() =~= b.drop_first() + x);
            lemma_replace_prefix(b.drop_first(), x, p, r);
            assert(replace(s, p, r) =~= seq![s[0]] + replace(s.drop_first(), p, r));
            assert(b =~= seq![b[0]] + b.drop_first());
        }
    }
}

/// Expanding every character to itself gives the text back.
proof fn lemma_expand_identity(u: Seq<char>, f: spec_fn(char) -> Seq<char>)
    requires
        forall|c: char| #[trigger] f(c) == seq![c],
    ensures
        expand(u, f) =~= u,
    decreases u.len(),
{
    if u.len() > 0 {
        lemma_expand_identity(u.drop_first(), f);
        assert(u =~= seq![u[0]] + u.drop_first());
    }
}

/// The block of one character of an escaped text after `stage` of the
/// unescaping replacements.
spec fn staged_entity(c: char, stage: int) -> Seq<char> {
    if c == '&' {
        if stage >= 8 { seq!['&'] } else { seq!['&', 'a', 'm', 'p', ';'] }
    } else if c == '<' {
        if stage >= 2 { seq!['<'] } else { seq!['&', 'l', 't', ';'] }
    } else if c == '>' {
        if stage >= 3 { seq!['>'] } else { seq!['&', 'g', 't', ';'] }
    } else if c == '"' {
        if stage >= 5 { seq!['"'] } else { seq!['&', '#', '3', '4', ';'] }
    } else {
        seq![c]
    }
}

/// The pattern of the unescaping replacement number `k`.
spec fn stage_pattern(k: int) -> Seq<char> {
    if k == 0 {
        seq!['&', '#', '9', '6', ';', '&', '#', '9', '6', ';', '&', '#', '9', '6', ';']
    } else if k == 1 {
        seq!['&', 'l', 't', ';']
    } else if k == 2 {
        seq!['&', 'g', 't', ';']
    } else if k == 3 {
        seq!['&', 'q', 'u', 'o', 't', ';']
    } else if k == 4 {
        seq!['&', '#', '3', '4', ';']
    } else if k == 5 {
        seq!['&', '#', '3', '9', ';']
    } else if k == 6 {
        seq!['&', 'a', 'p', 'o', 's', ';']
    } else {
        seq!['&', 'a', 'm', 'p', ';']
    }
}

/// The replacement of the unescaping replacement number `k`.
spec fn stage_replacement(k: int) -> Seq<char> {
    if k == 0 {
        "&grave;&grave;&grave;"@
    } else if k == 1 {
        seq!['<']
    } else if k == 2 {
        seq!['>']
    } else if k == 3 || k == 4 {
        seq!['"']
    } else if k == 5 || k == 6 {
        seq!['\'']
    } else {
        seq!['&']
    }
}

/// Each unescaping replacement meets the blocks of the previous stage only
/// as wholes, and turns them into the blocks of the next stage.
proof fn lemma_stage_fits(c: char, k: int)
    requires
        0 <= k < 8,
    ensures
        block_fits(staged_entity(c, k), stage_pattern(k)),
        staged_entity(c, k + 1) == (if staged_entity(c, k) == stage_pattern(k) {
            stage_replacement(k)
        } else {
            staged_entity(c, k)
        }),
{
    let b = staged_entity(c, k);
    let p = stage_pattern(k);
    assert(p[0] == '&');
    if b.len() == 1 {
        assert(b[0] != '&' ==> !b.contains(p[0])) by {
            if b[0] != '&' && b.contains(p[0]) {
                let i = choose|i: int| 0 <= i < b.len() && b[i] == p[0];
                assert(i == 0);
            }
        }
        if b[0] != '&' {
            assert(b != p);
        }
    } else {
        assert(b[0] == '&');
        assert(!b.drop_first().contains('&')) by {
            if b.drop_first().contains('&') {
                let i = choose|i: int| 0 <= i < b.drop_first().len() && b.drop_first()[i] == '&';
                assert(b[i + 1] == '&');
            }
        }
        if b != p {
            if b[1] != p[1] {
                lemma_differ_at(b, p, 1);
            } else if b[2] != p[2] {
                lemma_differ_at(b, p, 2);
            } else {
                assert(b[3] != p[3]);
                lemma_differ_at(b, p, 3);
            }
        }
    }
}

/// Unescaping undoes escaping: what comes back is the text's lines joined
/// with `\n`, which is the text itself when it has no `\r` and does not end
/// with `\n`.
pub proof fn law_unescape_undoes_escape(t: Seq<char>)
    ensures
        unescape_html_spec(escape_html_spec(t)) == join(lines(t), "\n"@),
        !t.contains('\r') && (t.len() == 0 || t.last() != '\n') ==> unescape_html_spec(escape_html_spec(t)) == t,
{
    reveal_strlit("&amp;");
    reveal_strlit("&lt;");
    reveal_strlit("&gt;");
    reveal_strlit("\"");
    reveal_strlit("&#34;");
    reveal_strlit("&#96;&#96;&#96;");
    reveal_strlit("&quot;");
    reveal_strlit("&#39;");
    reveal_strlit("&apos;");
    reveal_strlit("<");
    reveal_strlit(">");
    reveal_strlit("'");
    reveal_strlit("&");
    let u = join(lines(t), "\n"@);
    let quote = seq!['"'];
    assert("\""@ =~= quote);
    assert("&#34;"@ =~= staged_entity('"', 0));
    let te = |c: char| text_entity(c);
    let g0 = |c: char| staged_entity(c, 0);
    assert forall|c: char| block_fits(#[trigger] te(c), quote) by {
        if c != '"' {
            let b = te(c);
            assert(!b.contains('"')) by {
                if b.contains('"') {
                    let i = choose|i: int| 0 <= i < b.len() && b[i] == '"';
                    assert(b[i] == '"');
                }
            }
        }
    }
    assert forall|c: char| #[trigger] g0(c) == (if te(c) == quote { staged_entity('"', 0) } else {
        te(c)
    }) by {
        if c != '"' {
            assert(te(c) != quote) by {
                if te(c) == quote {
                    assert(te(c)[0] == '"');
                }
            }
        }
    }
    lemma_replace_blocks(u, te, g0, quote, staged_entity('"', 0));
    assert(escape_html_spec(t) == expand(u, g0));
    let g1 = |c: char| staged_entity(c, 1);
    let g2 = |c: char| staged_entity(c, 2);
    let g3 = |c: char| staged_entity(c, 3);
    let g4 = |c: char| staged_entity(c, 4);
    let g5 = |c: char| staged_entity(c, 5);
    let g6 = |c: char| staged_entity(c, 6);
    let g7 = |c: char| staged_entity(c, 7);
    let g8 = |c: char| staged_entity(c, 8);
    assert forall|c: char| block_fits(#[trigger] g0(c), stage_pattern(0)) && #[trigger] g1(c) == (
    if g0(c) == stage_pattern(0) { stage_replacement(0) } else { g0(c) }) by {
        lemma_stage_fits(c, 0);
    }
    lemma_replace_blocks(u, g0, g1, stage_pattern(0), stage_replacement(0));
    assert forall|c: char| block_fits(#[trigger] g1(c), stage_pattern(1)) && #[trigger] g2(c) == (
    if g1(c) == stage_pattern(1) { stage_replacement(1) } else { g1(c) }) by {
        lemma_stage_fits(c, 1);
    }
    lemma_replace_blocks(u, g1, g2, stage_pattern(1), stage_replacement(1));
    assert forall|c: char| block_fits(#[trigger] g2(c), stage_pattern(2)) && #[trigger] g3(c) == (
    if g2(c) == stage_pattern(2) { stage_replacement(2) } else { g2(c) }) by {
        lemma_stage_fits(c, 2);
    }
    lemma_replace_blocks(u, g2, g3, stage_pattern(2), stage_replacement(2));
    assert forall|c: char| block_fits(#[trigger] g3(c), stage_pattern(3)) && #[trigger] g4(c) == (
    if g3(c) == stage_pattern(3) { stage_replacement(3) } else { g3(c) }) by {
        lemma_stage_fits(c, 3);
    }
    lemma_replace_blocks(u, g3, g4, stage_pattern(3), stage_replacement(3));
    assert forall|c: char| block_fits(#[trigger] g4(c), stage_pattern(4)) && #[trigger] g5(c) == (
    if g4(c) == stage_pattern(4) { stage_replacement(4) } else { g4(c) }) by {
        lemma_stage_fits(c, 4);
    }
    lemma_replace_blocks(u, g4, g5, stage_pattern(4), stage_replacement(4));
    assert forall|c: char| block_fits(#[trigger] g5(c), stage_pattern(5)) && #[trigger] g6(c) == (
    if g5(c) == stage_pattern(5) { stage_replacement(5) } else { g5(c) }) by {
        lemma_stage_fits(c, 5);
    }
    lemma_replace_blocks(u, g5, g6, stage_pattern(5), stage_replacement(5));
    assert forall|c: char| block_fits(#[trigger] g6(c), stage_pattern(6)) && #[trigger] g7(c) == (
    if g6(c) == stage_pattern(6) { stage_replacement(6) } else { g6(c) }) by {
        lemma_stage_fits(c, 6);
    }
    lemma_replace_blocks(u, g6, g7, stage_pattern(6), stage_replacement(6));
    assert forall|c: char| block_fits(#[trigger] g7(c), stage_pattern(7)) && #[trigger] g8(c) == (
    if g7(c) == stage_pattern(7) { stage_replacement(7) } else { g7(c) }) by {
        lemma_stage_fits(c, 7);
    }
    lemma_replace_blocks(u, g7, g8, stage_pattern(7), stage_replacement(7));
    assert forall|c: char| #[trigger] g8(c) == seq![c] by {}
    lemma_expand_identity(u, g8);
    assert("&#96;&#96;&#96;"@ =~= stage_pattern(0));
    assert("&lt;"@ =~= stage_pattern(1));
    assert("<"@ =~= stage_replacement(1));
    assert("&gt;"@ =~= stage_pattern(2));
    assert(">"@ =~= stage_replacement(2));
    assert("&quot;"@ =~= stage_pattern(3));
    assert("&#34;"@ =~= stage_pattern(4));
    assert("&#39;"@ =~= stage_pattern(5));
    assert("'"@ =~= stage_replacement(5));
    assert("&apos;"@ =~= stage_pattern(6));
    assert("&amp;"@ =~= stage_pattern(7));
    assert("&"@ =~= stage_replacement(7));
    reveal_strlit("\n");
    assert("\n"@ =~= seq!['\n']);
    if !t.contains('\r') && (t.len() == 0 || t.last() != '\n') {
        lemma_join_lines(t);
    }
}

} // verus!
