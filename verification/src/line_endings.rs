//! Line-ending canonicalisation: CR LF, lone CR and LF all become a bare LF.

use vstd::prelude::*;

verus! {

/// First rewrite: every CR LF pair, matched from the left, becomes one LF.
/// Everything else, a CR that no LF follows included, is left as it is.
pub open spec fn collapse_crlf(text: Seq<char>) -> Seq<char>
    decreases text.len(),
{
    if text.len() == 0 {
        Seq::empty()
    } else if text.len() >= 2 && text[0] == '\r' && text[1] == '\n' {
        seq!['\n'] + collapse_crlf(text.skip(2))
    } else {
        seq![text[0]] + collapse_crlf(text.skip(1))
    }
}

/// Second rewrite: every CR becomes an LF.
pub open spec fn cr_to_lf(text: Seq<char>) -> Seq<char> {
    text.map_values(|c: char| if c == '\r' { '\n' } else { c })
}

/// The canonical form of `text`: CR LF pairs are collapsed first, then the CRs
/// that remain are replaced. The order matters: replacing CRs first would turn
/// each CR LF into two line feeds.
pub open spec fn normalize_line_endings_spec(text: Seq<char>) -> Seq<char> {
    cr_to_lf(collapse_crlf(text))
}

/// True when `text` holds no carriage return.
pub open spec fn cr_free(text: Seq<char>) -> bool {
    forall|i: int| 0 <= i < text.len() ==> text[i] != '\r'
}

/// Rewrites every line ending of `text` to a bare line feed in one pass.
pub fn normalize_line_endings(text: &str) -> (out: String)
    ensures
        out@ == normalize_line_endings_spec(text@),
{
    broadcast use vstd::string::group_string_axioms;

    let mut out = String::new();
    // True when the character just read was a CR, for which the LF is
    // already written.
    let mut after_cr = false;
    for c in it: text.chars()
        invariant
            it.seq() == text@,
            out@ == normalize_line_endings_spec(text@.take(it.index())),
            after_cr == (it.index() > 0 && text@[it.index() - 1] == '\r'),
    {
        proof {
            lemma_normalize_push(text@.take(it.index()), c);
            assert(text@.take(it.index()).push(c) == text@.take(it.index() + 1));
        }
        if c == '\r' {
            out.push('\n');
            after_cr = true;
        } else if c == '\n' && after_cr {
            after_cr = false;
        } else {
            out.push(c);
            after_cr = false;
        }
    }
    assert(text@.take(text@.len() as int) == text@);
    out
}

/// How the first rewrite extends when one character is appended: an LF that
/// completes a pair replaces the CR before it, anything else is appended.
proof fn lemma_collapse_push(p: Seq<char>, c: char)
    ensures
        p.len() > 0 ==> collapse_crlf(p).len() > 0,
        p.len() > 0 && p.last() == '\r' ==> collapse_crlf(p).last() == '\r',
        collapse_crlf(p.push(c)) == if p.len() > 0 && p.last() == '\r' && c == '\n' {
            collapse_crlf(p).drop_last().push('\n')
        } else {
            collapse_crlf(p).push(c)
        },
    decreases p.len(),
{
    let pc = p.push(c);
    if p.len() == 0 {
        assert(pc.skip(1) == Seq::<char>::empty());
        assert(collapse_crlf(pc.skip(1)) == Seq::<char>::empty());
        assert(collapse_crlf(pc) == seq![c]);
    } else if p.len() >= 2 && p[0] == '\r' && p[1] == '\n' {
        let q = p.skip(2);
        lemma_collapse_push(q, c);
        assert(pc.skip(2) == q.push(c));
        if q.len() > 0 {
            assert(q.last() == p.last());
        }
    } else if p.len() == 1 && p[0] == '\r' && c == '\n' {
        assert(pc.skip(2) == Seq::<char>::empty());
        assert(collapse_crlf(pc.skip(2)) == Seq::<char>::empty());
        assert(p.skip(1) == Seq::<char>::empty());
        assert(collapse_crlf(p.skip(1)) == Seq::<char>::empty());
        assert(collapse_crlf(pc) == seq!['\n']);
        assert(collapse_crlf(p) == seq!['\r']);
        assert(collapse_crlf(p).drop_last().push('\n') == seq!['\n']);
    } else {
        let q = p.skip(1);
        lemma_collapse_push(q, c);
        assert(pc.skip(1) == q.push(c));
        if q.len() > 0 {
            assert(q.last() == p.last());
        }
    }
}

/// How the canonical form extends when one character is appended: the LF of
/// a CR LF pair adds nothing, a CR adds an LF, anything else adds itself.
proof fn lemma_normalize_push(p: Seq<char>, c: char)
    ensures
        normalize_line_endings_spec(p.push(c)) == if p.len() > 0 && p.last() == '\r' && c
            == '\n' {
            normalize_line_endings_spec(p)
        } else if c == '\r' {
            normalize_line_endings_spec(p).push('\n')
        } else {
            normalize_line_endings_spec(p).push(c)
        },
{
    lemma_collapse_push(p, c);
}

/// The canonical form holds no carriage return.
pub proof fn lemma_normalized_is_cr_free(text: Seq<char>)
    ensures
        cr_free(normalize_line_endings_spec(text)),
{
}

/// Text without a carriage return holds no CR LF pair to collapse.
proof fn lemma_cr_free_collapse(text: Seq<char>)
    requires
        cr_free(text),
    ensures
        collapse_crlf(text) == text,
    decreases text.len(),
{
    if text.len() > 0 {
        lemma_cr_free_collapse(text.skip(1));
        assert(seq![text[0]] + text.skip(1) == text);
    }
}

/// Text without a carriage return is already in canonical form.
pub proof fn lemma_cr_free_is_canonical(text: Seq<char>)
    requires
        cr_free(text),
    ensures
        normalize_line_endings_spec(text) == text,
{
    lemma_cr_free_collapse(text);
    assert(cr_to_lf(text) == text);
}

/// Normalising line endings is idempotent: a second pass changes nothing.
pub proof fn lemma_normalize_line_endings_idempotent(text: Seq<char>)
    ensures
        normalize_line_endings_spec(normalize_line_endings_spec(text))
            == normalize_line_endings_spec(text),
{
    lemma_normalized_is_cr_free(text);
    lemma_cr_free_is_canonical(normalize_line_endings_spec(text));
}

} // verus!
