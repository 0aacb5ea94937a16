//! Removal of cosmetic separator characters.
//!
//! Separators are put into a name to break up what a plain comparison would
//! find; they do not change how the characters around them are read. They are
//! dropped before anything else is looked at.

use vstd::prelude::*;

verus! {

/// The characters that carry no meaning in a name and are dropped before scoring.
pub open spec fn is_separator(c: char) -> bool {
    c == '-' || c == '_'
}

/// The text with every separator taken out; the other characters keep their
/// order and are left as they are.
pub open spec fn strip_separators(s: Seq<char>) -> Seq<char> {
    s.filter(|c: char| !is_separator(c))
}

/// `String::push` of the standard library: the character is appended to the
/// string and nothing else of it changes.
pub assume_specification[ String::push ](s: &mut String, c: char)
    ensures
        final(s)@ == old(s)@.push(c),
;

/// Stripping a text that ends in `c` strips the text before `c` and keeps `c`
/// unless it is a separator.
proof fn lemma_strip_push(s: Seq<char>, c: char)
    ensures
        strip_separators(s.push(c)) == if is_separator(c) {
            strip_separators(s)
        } else {
            strip_separators(s).push(c)
        },
{
    reveal(Seq::filter);
    assert(s.push(c).drop_last() =~= s);
}

/// Stripping goes through concatenation.
pub proof fn lemma_strip_concat(a: Seq<char>, b: Seq<char>)
    ensures
        strip_separators(a + b) == strip_separators(a) + strip_separators(b),
{
    Seq::filter_distributes_over_add(a, b, |c: char| !is_separator(c));
}

/// A stripped text holds no separator.
pub proof fn lemma_stripped_has_no_separator(s: Seq<char>, i: int)
    requires
        0 <= i < strip_separators(s).len(),
    ensures
        !is_separator(strip_separators(s)[i]),
{
    s.lemma_filter_pred(|c: char| !is_separator(c), i);
}

/// A text without separators is left as it is.
pub proof fn lemma_strip_keeps_clean_text(s: Seq<char>)
    requires
        forall|i: int| 0 <= i < s.len() ==> !is_separator(#[trigger] s[i]),
    ensures
        strip_separators(s) == s,
    decreases s.len(),
{
    if s.len() > 0 {
        lemma_strip_keeps_clean_text(s.drop_last());
        lemma_strip_push(s.drop_last(), s.last());
        assert(s.drop_last().push(s.last()) =~= s);
    } else {
        assert(strip_separators(s) =~= s);
    }
}

/// Stripping is idempotent: a stripped text is left as it is by stripping it
/// again.
pub proof fn lemma_strip_idempotent(s: Seq<char>)
    ensures
        strip_separators(strip_separators(s)) == strip_separators(s),
{
    let once = strip_separators(s);
    assert forall|i: int| 0 <= i < once.len() implies !is_separator(#[trigger] once[i]) by {
        lemma_stripped_has_no_separator(s, i);
    }
    lemma_strip_keeps_clean_text(once);
}

/// A separator put in at any place of a text is gone after stripping.
pub proof fn lemma_strip_ignores_inserted_separator(s: Seq<char>, at: int, c: char)
    requires
        0 <= at <= s.len(),
        is_separator(c),
    ensures
        strip_separators(s.insert(at, c)) == strip_separators(s),
{
    let head = s.subrange(0, at);
    let tail = s.subrange(at, s.len() as int);
    lemma_strip_push(head, c);
    lemma_strip_concat(head.push(c), tail);
    lemma_strip_concat(head, tail);
    assert(head + tail =~= s);
}

/// A separator taken out of any place of a text makes no difference after
/// stripping.
pub proof fn lemma_strip_ignores_removed_separator(s: Seq<char>, at: int)
    requires
        0 <= at < s.len(),
        is_separator(s[at]),
    ensures
        strip_separators(s.remove(at)) == strip_separators(s),
{
    let rest = s.remove(at);
    lemma_strip_ignores_inserted_separator(rest, at, s[at]);
    assert(rest.insert(at, s[at]) =~= s);
}

/// Takes the separators out of `text`.
pub fn normalize(text: &str) -> (out: String)
    ensures
        out@ == strip_separators(text@),
{
    let mut out = String::new();
    for c in it: text.chars()
        invariant
            it.seq() == text@,
            out@ == strip_separators(text@.take(it.index())),
    {
        proof {
            lemma_strip_push(text@.take(it.index()), c);
            assert(text@.take(it.index() + 1) =~= text@.take(it.index()).push(c));
        }
        if c != '-' && c != '_' {
            out.push(c);
        }
    }
    proof {
        assert(text@.take(text@.len() as int) =~= text@);
    }
    out
}

} // verus!
