//! Romanized readings of characters.

use pinyin::ToPinyin;
use vstd::prelude::*;

verus! {

/// The plain (toneless) romanized reading of one character, or `None` where
/// the character has no reading.
pub uninterp spec fn plain_reading(c: char) -> Option<Seq<char>>;

/// Looks one character up with `pinyin::ToPinyin::to_pinyin` and, where the
/// crate knows a reading, hands out its `pinyin::Pinyin::plain` form, else
/// `None`. Not proved: that the answer is the reading named by
/// [`plain_reading`], which is to say that it depends on the character alone.
/// The crate looks the character up in a table that is fixed when it is built.
#[verifier::external_body]
fn lookup(c: char) -> (reading: Option<&'static str>)
    ensures
        match reading {
            Some(r) => plain_reading(c) == Some(r@),
            None => plain_reading(c) is None,
        },
{
    match c.to_pinyin() {
        Some(p) => Some(p.plain()),
        None => None,
    }
}

/// The readings of the characters of `s`, in order; characters without a
/// reading leave no trace.
pub open spec fn readings(s: Seq<char>) -> Seq<Seq<char>> {
    s.filter_map(|c: char| plain_reading(c))
}

/// The readings of a text that ends in `c` are those of the text before `c`,
/// followed by the reading of `c` where it has one.
pub proof fn lemma_readings_push(s: Seq<char>, c: char)
    ensures
        readings(s.push(c)) == match plain_reading(c) {
            Some(r) => readings(s).push(r),
            None => readings(s),
        },
{
    assert(s.push(c).drop_last() =~= s);
}

/// Transliteration goes through concatenation.
pub proof fn lemma_readings_concat(a: Seq<char>, b: Seq<char>)
    ensures
        readings(a + b) == readings(a) + readings(b),
    decreases b.len(),
{
    if b.len() == 0 {
        assert(a + b =~= a);
        assert(readings(a) + readings(b) =~= readings(a));
    } else {
        let front = b.drop_last();
        lemma_readings_concat(a, front);
        lemma_readings_push(a + front, b.last());
        lemma_readings_push(front, b.last());
        assert((a + front).push(b.last()) =~= a + b);
        assert(front.push(b.last()) =~= b);
        match plain_reading(b.last()) {
            Some(r) => {
                assert((readings(a) + readings(front)).push(r) =~= readings(a) + readings(
                    front,
                ).push(r));
            },
            None => {},
        }
    }
}

/// A text has at most one reading for each of its characters.
pub proof fn lemma_readings_len(s: Seq<char>)
    ensures
        readings(s).len() <= s.len(),
    decreases s.len(),
{
    if s.len() > 0 {
        lemma_readings_len(s.drop_last());
        lemma_readings_push(s.drop_last(), s.last());
        assert(s.drop_last().push(s.last()) =~= s);
    }
}

/// Transliterates `text` into the sequence of its readings.
pub fn transliterate(text: &str) -> (out: Vec<&'static str>)
    ensures
        out.deep_view() == readings(text@),
{
    let mut out: Vec<&'static str> = Vec::new();
    assert(out.deep_view() =~= readings(text@.take(0)));
    for c in it: text.chars()
        invariant
            it.seq() == text@,
            out.deep_view() == readings(text@.take(it.index())),
    {
        proof {
            lemma_readings_push(text@.take(it.index()), c);
            assert(text@.take(it.index() + 1) =~= text@.take(it.index()).push(c));
        }
        let ghost before = out.deep_view();
        match lookup(c) {
            Some(r) => {
                out.push(r);
                assert(out.deep_view() =~= before.push(r@));
            },
            None => {},
        }
    }
    proof {
        assert(text@.take(text@.len() as int) =~= text@);
    }
    out
}

} // verus!
