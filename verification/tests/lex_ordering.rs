use eilmeldung::config::HintType;
use eilmeldung::lex_ordering::lex_ordering;

#[test]
fn test_lex_ordering() {
    let symbols = vec!['a', 'b', 'c'];
    let mut lex_ordering = lex_ordering(symbols).unwrap();

    vec![
        "a", "b", "c", "aa", "ab", "ac", "ba", "bb", "bc", "ca", "cb", "cc", "aaa", "aab", "aac",
        "aba", "abb", "abc", "aca", "acb", "acc", "baa", "bab", "bac", "bba", "bbb", "bbc", "bca",
        "bcb", "bcc", "caa", "cab", "cac", "cba", "cbb", "cbc", "cca", "ccb", "ccc", "aaaa",
    ]
    .iter()
    .for_each(|expected| {
        assert_eq!(lex_ordering.next(), Some(expected.to_string()));
    });
}

#[test]
fn test_lex_ordering_no_symbols() {
    if lex_ordering(Default::default()).is_ok() {
        panic!("must return Err if no symboled are passed");
    }
}

#[test]
fn hint_labels_are_never_repeated() {
    let mut hints = HintType::Letters.iter();
    let mut seen: Vec<String> = Vec::new();
    for _ in 0..300 {
        let label = hints.next().unwrap();
        assert!(!seen.contains(&label), "{label} given out twice");
        seen.push(label);
    }
    assert_eq!("F", seen[0]);
    assert_eq!("K", seen[5]);
    assert_eq!("FF", seen[6]);
}

#[test]
fn number_hints_count_in_shortlex_order() {
    let mut hints = HintType::Numbers.iter();
    let labels: Vec<String> = (0..12).map(|_| hints.next().unwrap()).collect();
    assert_eq!(vec!["0", "1", "2", "3", "4", "5", "6", "7", "8", "9", "00", "01"], labels);
}

#[test]
fn an_empty_alphabet_is_refused_with_a_reason() {
    assert_eq!("there must be at least one symbol", lex_ordering(Vec::new()).err().unwrap());
}
