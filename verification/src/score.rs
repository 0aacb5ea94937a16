//! The possibility score: an exact fraction between zero and one.
//!
//! A name is scored by the share of its characters that read as suspect
//! syllables. The share is taken of the name's length after separators are
//! dropped, and of no less than [`LENGTH_FLOOR`], so that a name too short to
//! be one of the suspect names cannot reach a full score.

use crate::normalize::{
    is_separator, lemma_strip_concat, lemma_strip_ignores_inserted_separator,
    lemma_strip_ignores_removed_separator, normalize, strip_separators,
};
use crate::reading::{lemma_readings_concat, lemma_readings_len, readings, transliterate};
use crate::syllables::{
    lemma_matched_by_character, lemma_matched_concat, lemma_matched_len, matched,
    reads_as_member, suspect_syllables, SyllableSet,
};
use vstd::prelude::*;

verus! {

/// Names shorter than this are scored as if they had this many characters.
pub const LENGTH_FLOOR: usize = 4;

/// A fraction of two natural numbers.
pub struct Ratio {
    pub numer: nat,
    pub denom: nat,
}

impl Ratio {
    /// The fraction is defined and lies between zero and one, both included.
    pub open spec fn in_unit_interval(self) -> bool {
        0 < self.denom && self.numer <= self.denom
    }

    /// The fraction equals zero.
    pub open spec fn is_zero(self) -> bool {
        self.numer == 0
    }

    /// The fraction equals one.
    pub open spec fn is_one(self) -> bool {
        self.numer == self.denom
    }

    /// The fraction is at least `other`, where both denominators are positive.
    pub open spec fn at_least(self, other: Ratio) -> bool {
        self.numer * other.denom >= other.numer * self.denom
    }
}

/// The score from which administrators are told about a name: four fifths.
pub open spec fn notify_threshold() -> Ratio {
    Ratio { numer: 4, denom: 5 }
}

/// The length that a name of `length` characters is scored with.
pub open spec fn effective_length(length: nat) -> nat {
    if length < LENGTH_FLOOR {
        LENGTH_FLOOR as nat
    } else {
        length
    }
}

/// The tent over the density of matches: with `d` the effective length, the
/// value is `1 - |1 - matches / d|`, and zero where that would be negative.
/// An empty name scores zero.
pub open spec fn tent(matches: nat, length: nat) -> Ratio {
    let d = effective_length(length);
    let gap = if matches <= d {
        d - matches
    } else {
        matches - d
    };
    Ratio { numer: if length == 0 || gap > d { 0 } else { (d - gap) as nat }, denom: d }
}

/// The number of characters that `text` is scored by: all but the separators.
pub open spec fn scored_length(text: Seq<char>) -> nat {
    strip_separators(text).len()
}

/// The number of readings of `text` that belong to `set`.
pub open spec fn match_count(text: Seq<char>, set: Set<Seq<char>>) -> nat {
    matched(readings(strip_separators(text)), set)
}

/// The score of `text` against `set`: separators are dropped, the rest is
/// transliterated, and the readings found in `set` are counted against the
/// number of characters left.
pub open spec fn score_of(text: Seq<char>, set: Set<Seq<char>>) -> Ratio {
    tent(match_count(text, set), scored_length(text))
}

/// A possibility score.
#[derive(Debug, Clone, Copy)]
pub struct Score {
    numer: usize,
    denom: usize,
}

impl View for Score {
    type V = Ratio;

    closed spec fn view(&self) -> Ratio {
        Ratio { numer: self.numer as nat, denom: self.denom as nat }
    }
}

impl Score {
    #[verifier::type_invariant]
    spec fn bounded(&self) -> bool {
        0 < self.denom && self.numer <= self.denom
    }

    /// The score `numer / denom`, where that is a fraction between zero and one.
    pub fn from_ratio(numer: usize, denom: usize) -> (made: Option<Score>)
        ensures
            made is Some == (0 < denom && numer <= denom),
            made matches Some(score) ==> score@ == (Ratio {
                numer: numer as nat,
                denom: denom as nat,
            }),
    {
        if 0 < denom && numer <= denom {
            Some(Score { numer, denom })
        } else {
            None
        }
    }

    /// The score of a name of `length` characters of which `matches` read as
    /// suspect syllables.
    pub fn from_counts(matches: usize, length: usize) -> (score: Score)
        ensures
            score@ == tent(matches as nat, length as nat),
    {
        let d = if length < LENGTH_FLOOR {
            LENGTH_FLOOR
        } else {
            length
        };
        let gap = if matches <= d {
            d - matches
        } else {
            matches - d
        };
        let numer = if length == 0 || gap > d {
            0
        } else {
            d - gap
        };
        Score { numer, denom: d }
    }

    /// The score from which administrators are told about a name.
    pub fn notify_threshold() -> (score: Score)
        ensures
            score@ == notify_threshold(),
    {
        Score { numer: 4, denom: 5 }
    }

    /// The numerator of the fraction.
    pub fn numerator(&self) -> (n: usize)
        ensures
            n == self@.numer,
    {
        self.numer
    }

    /// The denominator of the fraction; it is never zero, and the numerator
    /// is never above it.
    pub fn denominator(&self) -> (d: usize)
        ensures
            d == self@.denom,
            self@.in_unit_interval(),
    {
        proof {
            use_type_invariant(self);
        }
        self.denom
    }

    /// Whether the score is exactly one.
    pub fn is_one(&self) -> (one: bool)
        ensures
            one == self@.is_one(),
    {
        self.numer == self.denom
    }

    /// Whether the score is at least `other`.
    pub fn at_least(&self, other: &Score) -> (reached: bool)
        ensures
            reached == self@.at_least(other@),
    {
        proof {
            lemma_product_fits(self.numer as nat, other.denom as nat);
            lemma_product_fits(other.numer as nat, self.denom as nat);
        }
        let left: u128 = (self.numer as u128) * (other.denom as u128);
        let right: u128 = (other.numer as u128) * (self.denom as u128);
        left >= right
    }
}

proof fn lemma_product_fits(a: nat, b: nat)
    requires
        a <= u64::MAX,
        b <= u64::MAX,
    ensures
        a * b <= u128::MAX,
{
    assert(a * b <= 0xffff_ffff_ffff_ffff * 0xffff_ffff_ffff_ffff) by (nonlinear_arith)
        requires
            a <= 0xffff_ffff_ffff_ffff,
            b <= 0xffff_ffff_ffff_ffff,
    ;
}

/// The tent never leaves the unit interval, whatever it is given.
pub proof fn lemma_tent_in_unit_interval(matches: nat, length: nat)
    ensures
        tent(matches, length).in_unit_interval(),
{
}

/// A text has no more matches than characters to score.
pub proof fn lemma_matches_within_length(text: Seq<char>, set: Set<Seq<char>>)
    ensures
        match_count(text, set) <= scored_length(text),
{
    let name = strip_separators(text);
    lemma_matched_len(readings(name), set);
    lemma_readings_len(name);
}

/// Every score lies between zero and one, both included.
pub proof fn lemma_score_in_unit_interval(text: Seq<char>, set: Set<Seq<char>>)
    ensures
        score_of(text, set).in_unit_interval(),
{
}

/// The score of a text is the number of its matches over its effective
/// length: the falling side of the tent is never reached.
pub proof fn lemma_score_is_density(text: Seq<char>, set: Set<Seq<char>>)
    ensures
        score_of(text, set) == (Ratio {
            numer: match_count(text, set),
            denom: effective_length(scored_length(text)),
        }),
{
    lemma_matches_within_length(text, set);
}

/// The empty text scores zero.
pub proof fn lemma_empty_scores_zero(set: Set<Seq<char>>)
    ensures
        score_of(Seq::<char>::empty(), set).is_zero(),
{
    lemma_matches_within_length(Seq::<char>::empty(), set);
}

/// A text scores zero exactly where none of its readings belongs to the set.
pub proof fn lemma_zero_iff_no_match(text: Seq<char>, set: Set<Seq<char>>)
    ensures
        score_of(text, set).is_zero() <==> match_count(text, set) == 0,
{
    lemma_score_is_density(text, set);
}

/// A text of which no character reads as a member of the set scores zero.
pub proof fn lemma_unread_text_scores_zero(text: Seq<char>, set: Set<Seq<char>>)
    requires
        forall|i: int| 0 <= i < text.len() ==> !reads_as_member(#[trigger] text[i], set),
    ensures
        score_of(text, set).is_zero(),
{
    let name = strip_separators(text);
    let reads = |c: char| reads_as_member(c, set);
    assert forall|i: int| 0 <= i < name.len() implies !reads(#[trigger] name[i]) by {
        text.lemma_filter_contains_rev(|c: char| !is_separator(c), name[i]);
    }
    name.lemma_all_neg_filter_empty(reads);
    lemma_matched_by_character(name, set);
    lemma_zero_iff_no_match(text, set);
}

/// A text scores one exactly where it has at least [`LENGTH_FLOOR`]
/// characters to score and each of them reads as a member of the set.
pub proof fn lemma_one_iff_full_match(text: Seq<char>, set: Set<Seq<char>>)
    ensures
        score_of(text, set).is_one() <==> scored_length(text) >= LENGTH_FLOOR && match_count(
            text,
            set,
        ) == scored_length(text),
{
    lemma_score_is_density(text, set);
    lemma_matches_within_length(text, set);
}

/// A separator put in at any place of a text leaves its score as it was.
pub proof fn lemma_score_ignores_inserted_separator(
    text: Seq<char>,
    at: int,
    c: char,
    set: Set<Seq<char>>,
)
    requires
        0 <= at <= text.len(),
        is_separator(c),
    ensures
        score_of(text.insert(at, c), set) == score_of(text, set),
{
    lemma_strip_ignores_inserted_separator(text, at, c);
}

/// A separator taken out of any place of a text leaves its score as it was.
pub proof fn lemma_score_ignores_removed_separator(text: Seq<char>, at: int, set: Set<Seq<char>>)
    requires
        0 <= at < text.len(),
        is_separator(text[at]),
    ensures
        score_of(text.remove(at), set) == score_of(text, set),
{
    lemma_strip_ignores_removed_separator(text, at);
}

/// Matches and lengths add up over concatenation, so the score of `a + b` is
/// the tent over the sums.
pub proof fn lemma_score_concat(a: Seq<char>, b: Seq<char>, set: Set<Seq<char>>)
    ensures
        match_count(a + b, set) == match_count(a, set) + match_count(b, set),
        scored_length(a + b) == scored_length(a) + scored_length(b),
        score_of(a + b, set) == tent(
            match_count(a, set) + match_count(b, set),
            scored_length(a) + scored_length(b),
        ),
{
    lemma_strip_concat(a, b);
    lemma_readings_concat(strip_separators(a), strip_separators(b));
    lemma_matched_concat(readings(strip_separators(a)), readings(strip_separators(b)), set);
}

/// Scores `text` against `set`.
pub fn score_with(text: &str, set: &SyllableSet) -> (score: Score)
    ensures
        score@ == score_of(text@, set@),
        score@.in_unit_interval(),
{
    let name = normalize(text);
    let syllables = transliterate(name.as_str());
    let matches = set.count_matches(syllables.as_slice());
    let length = name.as_str().unicode_len();
    Score::from_counts(matches, length)
}

/// The possibility that `name` is one of the suspect names, between zero and one.
pub fn get_gong_fu_possibility(name: &str) -> (score: Score)
    ensures
        score@ == score_of(name@, suspect_syllables()),
        score@.in_unit_interval(),
{
    let set = SyllableSet::suspect();
    score_with(name, &set)
}

} // verus!
