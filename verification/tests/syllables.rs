use gongfu_guard::syllables::{is_syllable_text, same_text, SyllableSet};

fn owned(members: &[&str]) -> Vec<String> {
    members.iter().map(|m| m.to_string()).collect()
}

#[test]
fn suspect_set_has_its_six_members() {
    let set = SyllableSet::suspect();
    for member in ["gong", "fu", "guo", "ji", "yu", "le"] {
        assert!(set.contains(member));
    }
}

#[test]
fn suspect_set_has_no_other_member() {
    let set = SyllableSet::suspect();
    for other in ["", "hai", "gon", "gongg", "Gong", "GONG", "g", "fuu", "yue", "l", "e", "gong fu"] {
        assert!(!set.contains(other));
    }
}

#[test]
fn set_of_syllables_is_made() {
    let set = SyllableSet::new(owned(&["gong", "fu", "guo", "ji"])).unwrap();
    assert!(set.contains("gong"));
    assert!(set.contains("ji"));
    assert!(!set.contains("yu"));
    assert!(!set.contains("le"));
}

#[test]
fn empty_set_is_made() {
    let set = SyllableSet::new(Vec::new()).unwrap();
    assert!(!set.contains("gong"));
    assert_eq!(set.count_matches(&["gong", "fu"]), 0);
}

#[test]
fn empty_member_is_refused() {
    assert!(SyllableSet::new(owned(&["gong", ""])).is_none());
    assert!(SyllableSet::new(owned(&[""])).is_none());
}

#[test]
fn upper_case_member_is_refused() {
    assert!(SyllableSet::new(owned(&["Gong"])).is_none());
    assert!(SyllableSet::new(owned(&["gong", "fU"])).is_none());
}

#[test]
fn member_outside_ascii_is_refused() {
    assert!(SyllableSet::new(owned(&["lü"])).is_none());
    assert!(SyllableSet::new(owned(&["gōng"])).is_none());
    assert!(SyllableSet::new(owned(&["共"])).is_none());
}

#[test]
fn member_with_other_characters_is_refused() {
    assert!(SyllableSet::new(owned(&["gong1"])).is_none());
    assert!(SyllableSet::new(owned(&["gong fu"])).is_none());
    assert!(SyllableSet::new(owned(&["gong-fu"])).is_none());
    assert!(SyllableSet::new(owned(&["fu", "ji", "`"])).is_none());
    assert!(SyllableSet::new(owned(&["{"])).is_none());
}

#[test]
fn repeated_member_is_accepted() {
    let set = SyllableSet::new(owned(&["fu", "fu"])).unwrap();
    assert!(set.contains("fu"));
    assert_eq!(set.count_matches(&["fu", "gong", "fu"]), 2);
}

#[test]
fn matches_are_counted_with_repeats() {
    let set = SyllableSet::suspect();
    assert_eq!(set.count_matches(&[]), 0);
    assert_eq!(set.count_matches(&["gong"]), 1);
    assert_eq!(set.count_matches(&["gong", "gong", "gong"]), 3);
    assert_eq!(set.count_matches(&["hai", "gong", "ni", "le", "hao"]), 2);
    assert_eq!(set.count_matches(&["gong", "fu", "guo", "ji", "yu", "le"]), 6);
    assert_eq!(set.count_matches(&["ni", "hao"]), 0);
}

#[test]
fn order_of_readings_does_not_matter() {
    let set = SyllableSet::suspect();
    assert_eq!(set.count_matches(&["ji", "hai", "fu"]), 2);
    assert_eq!(set.count_matches(&["fu", "ji", "hai"]), 2);
    assert_eq!(set.count_matches(&["hai", "fu", "ji"]), 2);
}

#[test]
fn texts_are_compared_by_their_characters() {
    assert!(same_text("", ""));
    assert!(same_text("gong", "gong"));
    assert!(same_text("共富", "共富"));
    assert!(!same_text("gong", "gon"));
    assert!(!same_text("gon", "gong"));
    assert!(!same_text("gong", "going"));
    assert!(!same_text("gong", "Gong"));
    assert!(!same_text("共富", "共冨"));
    assert!(!same_text("", "a"));
}

#[test]
fn syllables_are_lower_case_ascii_letters() {
    assert!(is_syllable_text("a"));
    assert!(is_syllable_text("z"));
    assert!(is_syllable_text("gong"));
    assert!(is_syllable_text("zhuang"));
    assert!(!is_syllable_text(""));
    assert!(!is_syllable_text("Gong"));
    assert!(!is_syllable_text("gonG"));
    assert!(!is_syllable_text("go ng"));
    assert!(!is_syllable_text("gong4"));
    assert!(!is_syllable_text("lü"));
    assert!(!is_syllable_text("`"));
    assert!(!is_syllable_text("{"));
    assert!(!is_syllable_text("共"));
}
