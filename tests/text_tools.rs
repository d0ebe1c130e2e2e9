use text_processor_rust::text_tools::{clean_line, clean_text, count_words, extract_emails, tally};

#[test]
fn counts_lowercased_words() {
    let mut r = count_words("Hello HELLO world's, hello");
    r.sort();
    assert_eq!(r, vec![("hello".to_string(), 3), ("world's".to_string(), 1)]);
}

#[test]
fn counts_nothing_in_empty_text() {
    assert!(count_words("").is_empty());
    assert!(count_words("  ,, !").is_empty());
}

#[test]
fn tally_keeps_first_occurrence_order() {
    let words: Vec<String> = ["b", "a", "b", "c", "b"].iter().map(|w| w.to_string()).collect();
    let r = tally(&words);
    assert_eq!(r, vec![("b".to_string(), 3), ("a".to_string(), 1), ("c".to_string(), 1)]);
}

#[test]
fn extracts_emails_in_order() {
    let r = extract_emails("write to a.b@example.com or c_d@mail.org; not x@y");
    assert_eq!(r, vec!["a.b@example.com".to_string(), "c_d@mail.org".to_string()]);
    assert!(extract_emails("no address here").is_empty());
}

#[test]
fn cleans_each_line() {
    assert_eq!(clean_text("  Hi! @there \n  ok#? "), "Hi! there\nok?");
    assert_eq!(clean_text(""), "");
    let line: String = clean_line("  a-b, c ").into_iter().collect();
    assert_eq!(line, "ab, c");
}
