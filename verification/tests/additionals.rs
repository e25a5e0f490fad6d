use ocw_labs::additionals::{
    extract_tags, is_palindrome, is_substring, palindrome_of_graphemes, substring_check, substring_of_graphemes,
    tags_of_graphemes, FruitSalad, TransactionOperation, Warehouse,
};

fn gs(parts: &[&str]) -> Vec<String> {
    parts.iter().map(|p| p.to_string()).collect()
}

#[test]
fn test_extract_tags() {
    assert_eq!(extract_tags(&"[aoeu]".to_string()), Ok(vec!["aoeu".to_string()]));
    assert_eq!(extract_tags(&"aoeu".to_string()), Ok(vec![]));
    assert_eq!(extract_tags(&"aoeu]".to_string()), Err("Unmatched open tag".to_string()));
    assert_eq!(extract_tags(&"[aoeu".to_string()), Err("Unmatched close tag".to_string()));
    assert_eq!(extract_tags(&"[[aoeu]]".to_string()), Err("Tags within tags are not supported".to_string()));
    assert_eq!(
        extract_tags(&"[aoeu1][aoeu2] foo [aoeu3] bar".to_string()),
        Ok(vec!["aoeu1".to_string(), "aoeu2".to_string(), "aoeu3".to_string()])
    );
}

#[test]
fn test_fruit_salad() {
    let mut f1 = FruitSalad::new(vec!["melons".to_string(), "pineapples".to_string()], 4);
    assert_eq!("4 servings of fruit salad with [\"melons\", \"pineapples\"]", f1.to_string());
    f1.add("mango".to_string());
    assert_eq!(f1.serve(), "enjoy".to_string());
    assert_eq!(f1.serve(), "enjoy".to_string());
    assert_eq!(f1.serve(), "enjoy".to_string());
    assert_eq!(f1.serve(), "enjoy".to_string());
    assert_eq!(f1.serve(), "sorry".to_string());
}

#[test]
fn test_is_substring() {
    assert_eq!(is_substring(&"barfoobar".to_string(), &"foo".to_string()), true);
    assert_eq!(is_substring(&"foo".to_string(), &"barfoobar".to_string()), false);
    assert_eq!(is_substring(&"something".to_string(), &"thing".to_string()), true);
    assert_eq!(is_substring(&"something".to_string(), &"things".to_string()), false);
    assert_eq!(is_substring(&"something".to_string(), &"some".to_string()), true);
}

#[test]
fn test_waherouse_process() {
    let mut warehouse1 = Warehouse::new();
    let mut w1_transactions: Vec<TransactionOperation> = vec![];
    w1_transactions.push(TransactionOperation::new("ship".to_string(), "a".to_string(), 1));
    warehouse1.process(&mut w1_transactions);
    assert_eq!(warehouse1.lookup("a".to_string()), 0u32);
    w1_transactions.push(TransactionOperation::new("receive".to_string(), "b".to_string(), 10));
    warehouse1.process(&mut w1_transactions);
    assert_eq!(warehouse1.lookup("b".to_string()), 10u32);
    w1_transactions.push(TransactionOperation::new("receive".to_string(), "c".to_string(), 10));
    w1_transactions.push(TransactionOperation::new("ship".to_string(), "c".to_string(), 10));
    w1_transactions.push(TransactionOperation::new("ship".to_string(), "c".to_string(), 10));
    warehouse1.process(&mut w1_transactions);
    assert_eq!(warehouse1.lookup("c".to_string()), 0u32);
}

#[test]
fn it_checks_palindromes() {
    assert!(is_palindrome("abba"));
    assert!(is_palindrome("racecar"));
    assert!(is_palindrome(""));
    assert!(!is_palindrome("ab"));
    // Graphemes, not characters: "e" with a combining accent is one.
    assert!(is_palindrome("e\u{301}xe\u{301}"));
}

#[test]
fn it_keeps_stock_levels() {
    let mut w = Warehouse::new();
    let mut txs = vec![
        TransactionOperation::new("receive".to_string(), "x".to_string(), 5),
        TransactionOperation::new("ship".to_string(), "x".to_string(), 2),
        TransactionOperation::new("other".to_string(), "x".to_string(), 1),
    ];
    w.process(&mut txs);
    assert!(txs.is_empty());
    assert_eq!(w.lookup("x".to_string()), 4);
    assert_eq!(w.lookup("y".to_string()), 0);
}

#[test]
fn it_checks_substrings_on_any_input() {
    assert_eq!(substring_check("barfoobar", "foo"), Some(true));
    assert_eq!(substring_check("something", "things"), Some(false));
    // an empty fragment would be read past its end
    assert_eq!(substring_check("abc", ""), None);
    // the fragment's length counts bytes: "é" is two bytes but one grapheme
    assert_eq!(substring_check("aé", "é"), Some(false));
    assert_eq!(substring_check("éé", "é"), None);
}

#[test]
fn it_works_on_grapheme_sequences() {
    // a grapheme made of several chars counts as one
    assert!(palindrome_of_graphemes(&gs(&["a", "e\u{301}", "a"])));
    assert!(!palindrome_of_graphemes(&gs(&["a", "b"])));
    assert!(palindrome_of_graphemes(&gs(&[])));
    assert_eq!(tags_of_graphemes(&gs(&["[", "a", "b", "]", "x", "[", "]"])), Ok(vec!["ab".to_string()]));
    assert_eq!(tags_of_graphemes(&gs(&["]"])), Err("Unmatched open tag".to_string()));
    assert_eq!(tags_of_graphemes(&gs(&["[", "a"])), Err("Unmatched close tag".to_string()));
    assert_eq!(substring_of_graphemes(&gs(&["a", "x", "b"]), &gs(&["a", "b"]), 2), Some(true));
    assert_eq!(substring_of_graphemes(&gs(&["b", "a"]), &gs(&["a", "b"]), 2), Some(false));
    // a fragment counted longer than its graphemes runs past them
    assert_eq!(substring_of_graphemes(&gs(&["a", "a", "a"]), &gs(&["a"]), 2), None);
}
