use web_identity::lang;

#[test]
fn lang_skips_non_text_elements() {
    let values = vec![Some("en-US".to_string()), None, Some("fr".to_string())];
    let mut it = lang(values);
    assert_eq!(it.next(), Some("en-US".to_string()));
    assert_eq!(it.next(), Some("fr".to_string()));
    assert_eq!(it.next(), None);
}

#[test]
fn lang_empty_array() {
    let mut it = lang(Vec::new());
    assert_eq!(it.next(), None);
    assert_eq!(it.next(), None);
}

#[test]
fn lang_only_non_text_elements() {
    let mut it = lang(vec![None, None, None]);
    assert_eq!(it.next(), None);
}

#[test]
fn lang_preserves_order_single_pass() {
    let values = vec![
        None,
        Some("de".to_string()),
        Some("en-GB".to_string()),
        None,
        Some("pt-BR".to_string()),
    ];
    let mut it = lang(values);
    assert_eq!(it.next(), Some("de".to_string()));
    assert_eq!(it.next(), Some("en-GB".to_string()));
    assert_eq!(it.next(), Some("pt-BR".to_string()));
    assert_eq!(it.next(), None);
}
