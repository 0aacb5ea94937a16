use gongfu_guard::normalize::normalize;

#[test]
fn hyphen_is_taken_out() {
    assert_eq!(normalize("共富-國際"), "共富國際");
    assert_eq!(normalize("a-b"), "ab");
}

#[test]
fn underscore_is_taken_out() {
    assert_eq!(normalize("共富_國際"), "共富國際");
    assert_eq!(normalize("a_b"), "ab");
}

#[test]
fn every_occurrence_is_taken_out() {
    assert_eq!(normalize("-共-富_國__際--"), "共富國際");
    assert_eq!(normalize("-_-_"), "");
}

#[test]
fn empty_text_stays_empty() {
    assert_eq!(normalize(""), "");
}

#[test]
fn text_without_separators_is_unchanged() {
    assert_eq!(normalize("Hello, World!"), "Hello, World!");
    assert_eq!(normalize("共富國際"), "共富國際");
}

#[test]
fn order_and_case_are_kept() {
    assert_eq!(normalize("b-A_c-B"), "bAcB");
    assert_eq!(normalize("Zy-xW"), "ZyxW");
}

#[test]
fn other_punctuation_is_kept() {
    assert_eq!(normalize("a.b c~d—e"), "a.b c~d—e");
    assert_eq!(normalize("a－b＿c"), "a－b＿c");
}

#[test]
fn normal_form_is_stable() {
    for text in ["", "-", "共-富_國-際", "a_b-c", "no separators", "__x__"] {
        let once = normalize(text);
        assert_eq!(normalize(&once), once);
    }
}

#[test]
fn normal_form_ignores_a_separator_put_in() {
    let text: Vec<char> = "共富a_b".chars().collect();
    let expected = normalize("共富a_b");
    assert_eq!(expected, "共富ab");
    for separator in ['-', '_'] {
        for at in 0..=text.len() {
            let mut changed = text.clone();
            changed.insert(at, separator);
            let changed: String = changed.into_iter().collect();
            assert_eq!(normalize(&changed), expected);
        }
    }
}
