//! Sets of suspect syllables.

use crate::reading::{lemma_readings_push, plain_reading, readings};
use vstd::prelude::*;
use vstd::utf8::*;

verus! {

/// A syllable is a non-empty run of lowercase ASCII letters.
pub open spec fn is_syllable(s: Seq<char>) -> bool {
    &&& s.len() > 0
    &&& forall|i: int| 0 <= i < s.len() ==> 'a' <= #[trigger] s[i] <= 'z'
}

/// Whether every entry of `list` is a syllable.
pub open spec fn all_syllables(list: Seq<Seq<char>>) -> bool {
    forall|i: int| 0 <= i < list.len() ==> is_syllable(#[trigger] list[i])
}

/// How many entries of `readings` belong to `set`; repeats count one by one.
pub open spec fn matched(readings: Seq<Seq<char>>, set: Set<Seq<char>>) -> nat {
    readings.filter(|r: Seq<char>| set.contains(r)).len()
}

/// Whether `c` has a reading and that reading belongs to `set`.
pub open spec fn reads_as_member(c: char, set: Set<Seq<char>>) -> bool {
    plain_reading(c) matches Some(r) && set.contains(r)
}

/// Counting goes through concatenation.
pub proof fn lemma_matched_concat(a: Seq<Seq<char>>, b: Seq<Seq<char>>, set: Set<Seq<char>>)
    ensures
        matched(a + b, set) == matched(a, set) + matched(b, set),
{
    Seq::filter_distributes_over_add(a, b, |r: Seq<char>| set.contains(r));
}

/// No more entries are counted than there are.
pub proof fn lemma_matched_len(list: Seq<Seq<char>>, set: Set<Seq<char>>)
    ensures
        matched(list, set) <= list.len(),
{
    list.lemma_filter_len(|r: Seq<char>| set.contains(r));
}

/// The readings of `s` that belong to `set` are as many as the characters of
/// `s` that read as a member of `set`.
pub proof fn lemma_matched_by_character(s: Seq<char>, set: Set<Seq<char>>)
    ensures
        matched(readings(s), set) == s.filter(|c: char| reads_as_member(c, set)).len(),
    decreases s.len(),
{
    let member = |r: Seq<char>| set.contains(r);
    let reads = |c: char| reads_as_member(c, set);
    if s.len() == 0 {
        assert(readings(s).filter(member) =~= Seq::<Seq<char>>::empty());
        assert(s.filter(reads) =~= Seq::<char>::empty());
    } else {
        let front = s.drop_last();
        let c = s.last();
        lemma_matched_by_character(front, set);
        lemma_readings_push(front, c);
        assert(front.push(c) =~= s);
        front.lemma_filter_len_push(reads, c);
        match plain_reading(c) {
            Some(r) => {
                readings(front).lemma_filter_len_push(member, r);
            },
            None => {},
        }
    }
}

/// Whether two texts hold the same characters in the same order.
pub fn same_text(a: &str, b: &str) -> (same: bool)
    ensures
        same == (a@ == b@),
{
    let x = a.as_bytes();
    let y = b.as_bytes();
    proof {
        encode_utf8_decode_utf8(a@);
        encode_utf8_decode_utf8(b@);
    }
    if x.len() != y.len() {
        return false;
    }
    let mut i: usize = 0;
    while i < x.len()
        invariant
            x@.len() == y@.len(),
            i <= x@.len(),
            forall|j: int| 0 <= j < i ==> x@[j] == y@[j],
            x@ == encode_utf8(a@),
            y@ == encode_utf8(b@),
            decode_utf8(encode_utf8(a@)) == a@,
            decode_utf8(encode_utf8(b@)) == b@,
        decreases x@.len() - i,
    {
        if x[i] != y[i] {
            return false;
        }
        i += 1;
    }
    assert(x@ =~= y@);
    true
}

/// Whether `text` is a syllable.
pub fn is_syllable_text(text: &str) -> (ok: bool)
    ensures
        ok == is_syllable(text@),
{
    let mut any = false;
    for c in it: text.chars()
        invariant
            it.seq() == text@,
            any == (it.index() > 0),
            forall|j: int| 0 <= j < it.index() ==> 'a' <= #[trigger] text@[j] <= 'z',
    {
        if !('a' <= c && c <= 'z') {
            return false;
        }
        any = true;
    }
    any
}

/// The syllables that mark a name as suspect.
pub open spec fn suspect_syllables() -> Set<Seq<char>> {
    set!["gong"@, "fu"@, "guo"@, "ji"@, "yu"@, "le"@]
}

/// Each of the suspect syllables is a syllable.
pub proof fn lemma_suspect_syllables_are_syllables(s: Seq<char>)
    requires
        suspect_syllables().contains(s),
    ensures
        is_syllable(s),
{
    reveal_strlit("gong");
    reveal_strlit("fu");
    reveal_strlit("guo");
    reveal_strlit("ji");
    reveal_strlit("yu");
    reveal_strlit("le");
}

/// An immutable set of syllables. Every member is a syllable in the sense of
/// [`is_syllable`].
pub struct SyllableSet {
    members: Vec<String>,
}

impl View for SyllableSet {
    type V = Set<Seq<char>>;

    closed spec fn view(&self) -> Set<Seq<char>> {
        self.members.deep_view().to_set()
    }
}

impl SyllableSet {
    #[verifier::type_invariant]
    spec fn well_formed(&self) -> bool {
        all_syllables(self.members.deep_view())
    }

    /// Makes a set of the given members. Fails where one of them is no syllable.
    pub fn new(members: Vec<String>) -> (made: Option<SyllableSet>)
        ensures
            made is Some == all_syllables(members.deep_view()),
            made matches Some(set) ==> set@ == members.deep_view().to_set(),
    {
        let mut i: usize = 0;
        while i < members.len()
            invariant
                i <= members.len(),
                forall|j: int| 0 <= j < i ==> is_syllable(#[trigger] members.deep_view()[j]),
            decreases members.len() - i,
        {
            if !is_syllable_text(members[i].as_str()) {
                assert(!is_syllable(members.deep_view()[i as int]));
                return None;
            }
            i += 1;
        }
        Some(SyllableSet { members })
    }

    /// The fixed set of suspect syllables.
    pub fn suspect() -> (set: SyllableSet)
        ensures
            set@ == suspect_syllables(),
    {
        let mut members: Vec<String> = Vec::new();
        members.push("gong".to_owned());
        members.push("fu".to_owned());
        members.push("guo".to_owned());
        members.push("ji".to_owned());
        members.push("yu".to_owned());
        members.push("le".to_owned());
        proof {
            let list = members.deep_view();
            assert(list =~= seq!["gong"@, "fu"@, "guo"@, "ji"@, "yu"@, "le"@]);
            assert forall|s: Seq<char>| suspect_syllables().contains(s) implies list.contains(
                s,
            ) by {
                let at = choose|i: int| 0 <= i < 6 && list[i] == s;
                assert(list[at] == s);
            }
            assert(list.to_set() =~= suspect_syllables());
            assert forall|i: int| 0 <= i < list.len() implies is_syllable(#[trigger] list[i]) by {
                lemma_suspect_syllables_are_syllables(list[i]);
            }
        }
        SyllableSet { members }
    }

    /// Whether `syllable` is a member. Only a syllable can be one.
    pub fn contains(&self, syllable: &str) -> (found: bool)
        ensures
            found == self@.contains(syllable@),
            found ==> is_syllable(syllable@),
    {
        proof {
            use_type_invariant(self);
        }
        let mut i: usize = 0;
        while i < self.members.len()
            invariant
                i <= self.members.len(),
                all_syllables(self.members.deep_view()),
                forall|j: int| 0 <= j < i ==> #[trigger] self.members.deep_view()[j] != syllable@,
            decreases self.members.len() - i,
        {
            if same_text(self.members[i].as_str(), syllable) {
                assert(self.members.deep_view()[i as int] == syllable@);
                return true;
            }
            i += 1;
        }
        false
    }

    /// Counts the entries of `readings` that are members.
    pub fn count_matches(&self, readings: &[&str]) -> (count: usize)
        ensures
            count == matched(readings.deep_view(), self@),
    {
        let ghost list = readings.deep_view();
        let ghost member = |r: Seq<char>| self@.contains(r);
        let mut count: usize = 0;
        let mut i: usize = 0;
        assert(list.take(0).filter(member) =~= Seq::<Seq<char>>::empty());
        while i < readings.len()
            invariant
                i <= readings.len(),
                list == readings.deep_view(),
                list.len() == readings.len(),
                member == |r: Seq<char>| self@.contains(r),
                count == list.take(i as int).filter(member).len(),
                count <= i,
            decreases readings.len() - i,
        {
            proof {
                reveal(Seq::filter);
                assert(list.take(i + 1).drop_last() =~= list.take(i as int));
            }
            if self.contains(readings[i]) {
                count += 1;
            }
            i += 1;
        }
        assert(list.take(i as int) =~= list);
        count
    }
}

} // verus!
