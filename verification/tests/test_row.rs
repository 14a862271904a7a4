use tokpick::document::Tokenizer;
use tokpick::tokenizer::Token;
use tokpick::{Row, SearchDirection};

#[test]
fn test_find() {
    let row = Row::new("1testtest", &Tokenizer::Whitespace);
    assert_eq!(row.find("t", 0, SearchDirection::Forward), Some(1));
    assert_eq!(row.find("t", 2, SearchDirection::Forward), Some(4));
    assert_eq!(row.find("t", 5, SearchDirection::Forward), Some(5));
}

#[test]
fn test_row() {
    let expected = vec![
        Token { start: 0, len: 36 },
        Token { start: 66, len: 3 },
        Token { start: 74, len: 7 },
        Token { start: 86, len: 1 },
        Token { start: 102, len: 3 },
    ];
    let s = "logdb-shared-ingest-756cfb4c58-68pgk                              1/1     Running     0               45h";
    let row = Row::new(s, &Tokenizer::Whitespace);
    assert_eq!(*row.tokens(), expected);
}

#[test]
fn test_row_starts_whitespace() {
    let expected = vec![Token { start: 4, len: 47 }, Token { start: 52, len: 5 }];
    let s = "    cluster-autoscaler.kubernetes.io/safe-to-evict: false";
    let row = Row::new(s, &Tokenizer::Whitespace);
    assert_eq!(*row.tokens(), expected);
}

#[test]
fn whitespace_tokenization_without_whitespace_gives_one_token() {
    let row = Row::new("1testtest", &Tokenizer::Whitespace);
    assert_eq!(*row.tokens(), vec![Token { start: 0, len: 9 }]);
}

#[test]
fn find_backward_and_out_of_reach() {
    let row = Row::new("1testtest", &Tokenizer::Whitespace);
    assert_eq!(row.find("t", 9, SearchDirection::Backward), Some(8));
    assert_eq!(row.find("t", 8, SearchDirection::Backward), Some(5));
    assert_eq!(row.find("t", 1, SearchDirection::Backward), None);
    assert_eq!(row.find("test", 6, SearchDirection::Forward), None);
    assert_eq!(row.find("test", 5, SearchDirection::Forward), Some(5));
    assert_eq!(row.find("t", 10, SearchDirection::Forward), None);
    assert_eq!(row.find("", 0, SearchDirection::Forward), None);
}

#[test]
fn find_looks_to_the_end_of_the_characters() {
    let row = Row::new("e\u{301}a", &Tokenizer::Whitespace);
    assert_eq!(row.find("a", 0, SearchDirection::Forward), Some(2));
    assert_eq!(row.find("a", 2, SearchDirection::Forward), Some(2));
    assert_eq!(row.find("a", 3, SearchDirection::Forward), None);
    assert_eq!(row.find("a", 3, SearchDirection::Backward), Some(2));
    assert_eq!(row.find("a", 4, SearchDirection::Backward), None);
    let row = Row::new("e\u{301}an", &Tokenizer::Whitespace);
    assert_eq!(row.find("an", 0, SearchDirection::Forward), Some(2));
}

#[test]
fn content_width_counts_grapheme_clusters() {
    let row = Row::new("e\u{301}a", &Tokenizer::Whitespace);
    assert_eq!(row.width(), 3);
    assert_eq!(row.content_width(), 2);
    let row = Row::new("abc", &Tokenizer::Whitespace);
    assert_eq!(row.content_width(), 3);
}
