use tokpick::document::Tokenizer;
use tokpick::highlighting::{HighlightedText, TextMode, Type};
use tokpick::row::switch_start_end;
use tokpick::text::{chars_of, find_first, find_last, matches_at, string_of};
use tokpick::tokenizer::{
    mark_whitespace, mk_tok_and_update_start, mk_tokens, split_on, tokens_from_mask, Token,
};
use tokpick::{Position, Row};

fn spans(tokens: &[Token]) -> Vec<(usize, usize)> {
    tokens.iter().map(|t| (t.start, t.len)).collect()
}

#[test]
fn whitespace_tokens_are_the_runs_between_whitespace() {
    let tokens = mk_tokens(" a\tbc \u{a0} d  ", &Tokenizer::Whitespace);
    assert_eq!(spans(&tokens), vec![(1, 1), (3, 2), (8, 1)]);
    assert_eq!(mk_tokens("", &Tokenizer::Whitespace), vec![]);
    assert_eq!(mk_tokens("   ", &Tokenizer::Whitespace), vec![]);
}

#[test]
fn tokens_count_characters() {
    let tokens = mk_tokens("\u{e9}t\u{e9} hiver", &Tokenizer::Whitespace);
    assert_eq!(spans(&tokens), vec![(0, 3), (4, 5)]);
}

#[test]
fn mask_runs() {
    let mask = vec![true, false, false, true, true, false];
    assert_eq!(spans(&tokens_from_mask(&mask)), vec![(1, 2), (5, 1)]);
    assert_eq!(tokens_from_mask(&vec![]), vec![]);
    assert_eq!(spans(&tokens_from_mask(&vec![false])), vec![(0, 1)]);
    assert_eq!(mark_whitespace(&chars_of("a b\n")), vec![false, true, false, true]);
}

#[test]
fn literal_delimiter_splits_into_pieces() {
    let comma = Tokenizer::String(String::from(","));
    assert_eq!(spans(&mk_tokens("a,bc,d", &comma)), vec![(0, 1), (2, 2), (5, 1)]);
    assert_eq!(spans(&mk_tokens(",a,,b,", &comma)), vec![(0, 0), (1, 1), (3, 0), (4, 1), (6, 0)]);
    assert_eq!(spans(&mk_tokens("no delimiter", &comma)), vec![(0, 12)]);
    assert_eq!(spans(&mk_tokens("", &comma)), vec![(0, 0)]);
    let double = Tokenizer::String(String::from("aa"));
    assert_eq!(spans(&mk_tokens("aaab", &double)), vec![(0, 0), (2, 2)]);
    assert_eq!(spans(&mk_tokens("xabb", &Tokenizer::String(String::from("ab")))), vec![(0, 1), (3, 1)]);
}

#[test]
fn empty_delimiter_splits_between_all_characters() {
    let empty = Tokenizer::String(String::new());
    assert_eq!(
        spans(&mk_tokens("abc", &empty)),
        vec![(0, 0), (0, 1), (1, 1), (2, 1), (3, 0)]
    );
    assert_eq!(spans(&mk_tokens("", &empty)), vec![(0, 0), (0, 0)]);
    assert_eq!(
        spans(&split_on(&chars_of("ab"), &chars_of(""))),
        vec![(0, 0), (0, 1), (1, 1), (2, 0)]
    );
}

#[test]
fn csv_header_is_split_again_by_commas() {
    let header = "schemas,types,\"descriptions\"";
    let mut row = Row::new(header, &Tokenizer::Whitespace);
    assert_eq!(spans(row.tokens()), vec![(0, 28)]);
    row.retokenize(&Tokenizer::String(String::from(",")));
    assert_eq!(spans(row.tokens()), vec![(0, 7), (8, 5), (14, 14)]);
    assert_eq!(row.token(1), Some(&Token { start: 8, len: 5 }));
    assert_eq!(row.token(3), None);
}

#[test]
fn mk_tok_and_update_start_locates_the_text() {
    assert_eq!(
        mk_tok_and_update_start("  ab  ab", "ab", 0),
        (Token { start: 2, len: 2 }, 4)
    );
    assert_eq!(
        mk_tok_and_update_start("  ab  ab", "ab", 3),
        (Token { start: 6, len: 2 }, 8)
    );
    assert_eq!(mk_tok_and_update_start("abc", "", 1), (Token { start: 1, len: 0 }, 1));
}

#[test]
fn text_helpers() {
    let text = chars_of("hello world  ");
    assert_eq!(text.len(), 13);
    assert_eq!(string_of(&text, 6, 11), "world");
    assert!(matches_at(&text, &chars_of("lo w"), 3));
    assert!(!matches_at(&text, &chars_of("lo w"), 4));
    assert!(!matches_at(&text, &chars_of("world   "), 6));
    assert_eq!(find_first(&text, &chars_of("o"), 0, 13), Some(4));
    assert_eq!(find_first(&text, &chars_of("o"), 5, 13), Some(7));
    assert_eq!(find_first(&text, &chars_of("o"), 5, 7), None);
    assert_eq!(find_last(&text, &chars_of("o"), 0, 13), Some(7));
    assert_eq!(find_last(&text, &chars_of("o"), 0, 7), Some(4));
    assert_eq!(find_last(&text, &chars_of("o"), 5, 7), None);
    assert_eq!(find_first(&text, &chars_of(""), 13, 13), Some(13));
}

#[test]
fn switch_start_end_orders_its_arguments() {
    assert_eq!(switch_start_end(1, 2), (1, 2));
    assert_eq!(switch_start_end(2, 1), (1, 2));
    assert_eq!(switch_start_end(3, 3), (3, 3));
}

#[test]
fn row_len_is_the_largest_x() {
    let row = Row::new("ab cd ef", &Tokenizer::Whitespace);
    assert_eq!(row.len(TextMode::Token), 2);
    assert_eq!(row.len(TextMode::Search(None)), 7);
    assert_eq!(row.len(TextMode::Visual(Position::default())), 7);
    let mut padded = Row::new("ab", &Tokenizer::Whitespace);
    padded.whitespace_pad(6);
    assert_eq!(padded.as_str(), "ab    ");
    assert_eq!(padded.len(TextMode::Search(Some(1))), 5);
    assert_eq!(padded.len(TextMode::Visual(Position::default())), 5);
    assert_eq!(padded.content_width(), 2);
    assert_eq!(*padded.tokens(), vec![Token { start: 0, len: 2 }]);
    padded.whitespace_pad(3);
    assert_eq!(padded.as_str(), "ab    ");
    let empty = Row::new("", &Tokenizer::Whitespace);
    assert_eq!(empty.len(TextMode::Token), usize::MAX);
    assert_eq!(empty.len(TextMode::Search(None)), 0);
    assert_eq!(empty.len(TextMode::Visual(Position::default())), 0);
}

#[test]
fn cursor_remapping_scales_by_the_number_of_characters() {
    // 6 characters in 3 grapheme clusters, then a blank and a token
    let row = Row::new("e\u{301}e\u{301}e\u{301} x", &Tokenizer::Whitespace);
    assert_eq!(row.width(), 8);
    assert_eq!(row.content_width(), 5);
    assert_eq!(row.tokens().len(), 2);
    // the blank at 6 lies in no token: floor(6 * 2 / 8)
    assert_eq!(row.char_to_token(6), 1);
    let wide = Row::new("ab      cd", &Tokenizer::Whitespace);
    // floor(3 * 2 / 10) and floor(5 * 2 / 10)
    assert_eq!(wide.char_to_token(3), 0);
    assert_eq!(wide.char_to_token(5), 1);
}

#[test]
fn cursor_remapping_between_tokens_and_characters() {
    let row = Row::new("ab   cd  ef", &Tokenizer::Whitespace);
    assert_eq!(row.token_to_char(0), 0);
    assert_eq!(row.token_to_char(1), 5);
    assert_eq!(row.token_to_char(2), 9);
    assert_eq!(row.token_to_char(3), 0);
    assert_eq!(row.char_to_token(0), 0);
    assert_eq!(row.char_to_token(1), 0);
    assert_eq!(row.char_to_token(5), 1);
    assert_eq!(row.char_to_token(6), 1);
    assert_eq!(row.char_to_token(10), 2);
    // no token covers these: floor(x * 3 / 11)
    assert_eq!(row.char_to_token(3), 0);
    assert_eq!(row.char_to_token(4), 1);
    assert_eq!(row.char_to_token(8), 2);
    assert_eq!(row.char_to_token(11), 2);
    assert_eq!(row.char_to_token(500), 2);
    let blank = Row::new("   ", &Tokenizer::Whitespace);
    assert_eq!(blank.char_to_token(2), 0);
    assert_eq!(blank.token_to_char(0), 0);
}

#[test]
fn highlight_sets_exactly_the_span() {
    let mut row = Row::new("ab cd ef", &Tokenizer::Whitespace);
    assert!(!row.is_highlighted());
    row.highlight(&HighlightedText::new_token(Position { x: 1, y: 0 }));
    let marked: Vec<bool> = (0..9).map(|i| row.highlighted(i)).collect();
    assert_eq!(marked, vec![false, false, false, true, true, false, false, false, false]);
    row.highlight(&HighlightedText::new_search(Position { x: 6, y: 0 }, Some(5)));
    let marked: Vec<bool> = (0..9).map(|i| row.highlighted(i)).collect();
    assert_eq!(marked, vec![false, false, false, false, false, false, true, true, false]);
    let mut visual = HighlightedText::new_visual(Position { x: 4, y: 0 });
    row.highlight(&visual);
    let marked: Vec<bool> = (0..9).map(|i| row.highlighted(i)).collect();
    assert_eq!(marked, vec![false, false, false, false, true, false, false, false, false]);
    visual.update_position(Position { x: 1, y: 7 });
    row.highlight(&visual);
    let marked: Vec<bool> = (0..9).map(|i| row.highlighted(i)).collect();
    assert_eq!(marked, vec![false, true, true, true, true, false, false, false, false]);
    assert_eq!(row.selected(&visual), "b cd");
    row.highlight(&HighlightedText::new_token(Position { x: 9, y: 0 }));
    assert!(!row.is_highlighted());
    row.highlight(&HighlightedText::new_search(Position { x: usize::MAX, y: 0 }, Some(usize::MAX)));
    assert!(!row.is_highlighted());
    row.highlight(&HighlightedText::new_token(Position { x: 0, y: 0 }));
    assert!(row.is_highlighted());
    row.unhighlight();
    assert!(!row.is_highlighted());
    assert_ne!(Type::Plain, Type::Highlighted);
}

#[test]
fn render_marks_the_highlighted_stretch() {
    let mut row = Row::new("ab\tcd ef", &Tokenizer::Whitespace);
    assert_eq!(row.render_with(0, 100, "<", ">"), "ab cd ef>");
    assert_eq!(row.render_with(3, 5, "<", ">"), "cd>");
    assert_eq!(row.render_with(5, 3, "<", ">"), ">");
    row.highlight(&HighlightedText::new_token(Position { x: 1, y: 0 }));
    assert_eq!(row.render_with(0, 8, "<", ">"), "ab <cd> ef>");
    assert_eq!(row.render_with(4, 8, "<", ">"), "<d> ef>");
    assert_eq!(row.render_with(0, 4, "<", ">"), "ab <c>");
    let drawn = row.render(0, 8);
    assert!(drawn == "ab \u{1b}[48;5;15mcd\u{1b}[49m ef\u{1b}[49m" || drawn == "ab cd\u{1b}[49m ef\u{1b}[49m");
}
