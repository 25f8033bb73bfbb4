use drive_explorer::listing::{order_and_limit, LimitError, MAX_LISTED};

fn words(line: &str) -> Vec<String> {
    line.split_whitespace().map(|word| word.to_string()).collect()
}

fn names(fields: &[&str]) -> Vec<String> {
    fields.iter().map(|field| field.to_string()).collect()
}

#[test]
fn without_words_everything_is_listed_in_no_order() {
    assert_eq!(order_and_limit(&vec![]), (vec![], MAX_LISTED, None));
    assert_eq!(MAX_LISTED, 10000);
}

#[test]
fn one_word_is_the_order_or_the_limit() {
    assert_eq!(order_and_limit(&words("[firstName,age]")), (names(&["firstName", "age"]), 10000, None));
    assert_eq!(order_and_limit(&words("25")), (vec![], 25, None));
    assert_eq!(order_and_limit(&words("age")), (vec![], 10000, Some(LimitError::NotAnInteger)));
}

#[test]
fn two_words_are_the_order_and_the_limit() {
    assert_eq!(order_and_limit(&words("[age] 7")), (names(&["age"]), 7, None));
    assert_eq!(order_and_limit(&words("[a,b,c] 10000")), (names(&["a", "b", "c"]), 10000, None));
    assert_eq!(order_and_limit(&words("(a,b) 1 more")), (names(&["a", "b"]), 1, None));
}

#[test]
fn a_limit_that_is_wrong_gives_way_to_the_greatest() {
    assert_eq!(order_and_limit(&words("0")), (vec![], 10000, Some(LimitError::OutOfRange)));
    assert_eq!(order_and_limit(&words("10001")), (vec![], 10000, Some(LimitError::OutOfRange)));
    assert_eq!(order_and_limit(&words("65535")), (vec![], 10000, Some(LimitError::OutOfRange)));
    assert_eq!(order_and_limit(&words("65536")), (vec![], 10000, Some(LimitError::NotAnInteger)));
    assert_eq!(order_and_limit(&words("[age] x")), (names(&["age"]), 10000, Some(LimitError::NotAnInteger)));
    assert_eq!(order_and_limit(&words("[age] -1")), (names(&["age"]), 10000, Some(LimitError::NotAnInteger)));
}

#[test]
fn the_fields_are_what_the_commas_divide() {
    assert_eq!(order_and_limit(&words("[]")).0, names(&[""]));
    assert_eq!(order_and_limit(&words("[")).0, names(&[""]));
    assert_eq!(order_and_limit(&words("[,]")).0, names(&["", ""]));
    assert_eq!(order_and_limit(&words("[a,]")).0, names(&["a", ""]));
    assert_eq!(order_and_limit(&words("[,a")).0, names(&["", ""]));
    assert_eq!(order_and_limit(&words("[a,,b]")).0, names(&["a", "", "b"]));
    assert_eq!(order_and_limit(&words("[\u{e9}t\u{e9},\u{fc}]")).0, names(&["\u{e9}t\u{e9}", "\u{fc}"]));
}

#[test]
fn the_fields_agree_with_std() {
    for word in ["[a,b]", "[", "[]", "[x", "[,,]", "[one,two,three]", "[a]"] {
        let mut chars = word.chars();
        chars.next();
        chars.next_back();
        let expected: Vec<String> = chars.as_str().split(',').map(|s| s.to_string()).collect();
        assert_eq!(order_and_limit(&words(word)).0, expected, "{:?}", word);
    }
}
