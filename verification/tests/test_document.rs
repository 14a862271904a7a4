use tokpick::document::Tokenizer;
use tokpick::highlighting::{HighlightedText, TextMode};
use tokpick::{Document, Position, SearchDirection};

const POD_YAML: &str = "apiVersion: v1
kind: Pod
metadata:
  annotations:
    cluster-autoscaler.kubernetes.io/safe-to-evict: \"false\"
    gatekeeper.sh/mutations: AssignMetadata//cluster-name-tag-datadog-agent:1, ModifySet//allow-scheduling-on-meta-node-pools:1
    prometheus.io/port: \"8080\"
    prometheus.io/scrape: \"true\"
    sidecar.istio.io/inject: \"false\"
  creationTimestamp: \"2023-05-23T09:14:27Z\"
  generateName: logdb-shared-ingest-756cfb4c58-
  labels:
    app: logdb-shared-ingest
    tier: analytics
  name: logdb-shared-ingest-756cfb4c58-68pgk
  namespace: logdb
spec:
  containers:
  - image: registry.example.com/logdb/ingest:1.4.2
    name: ingest
status:
  phase: Running
  qosClass: Guaranteed
  startTime: \"2023-05-23T09:14:27Z\"
";

fn load(text: &str) -> Document {
    let lines: Vec<String> = text.lines().map(String::from).collect();
    Document::new(&lines, Tokenizer::Whitespace)
}

#[test]
fn test_find_a() {
    let doc = load(POD_YAML);
    assert_eq!(
        doc.find("a", &Position { x: 0, y: 0 }, SearchDirection::Forward),
        Some(Position { x: 0, y: 0 })
    );
}

#[test]
fn test_find_an() {
    let doc = load(POD_YAML);
    assert_eq!(
        doc.find("an", &Position { x: 0, y: 0 }, SearchDirection::Forward),
        Some(Position { x: 2, y: 3 })
    );
}

#[test]
fn test_find_an_again() {
    let doc = load(POD_YAML);
    assert_eq!(
        doc.find("an", &Position { x: 3, y: 3 }, SearchDirection::Forward),
        Some(Position { x: 10, y: 13 })
    );
}

#[test]
fn find_from_the_match_finds_the_same_match() {
    let doc = load(POD_YAML);
    assert_eq!(
        doc.find("an", &Position { x: 2, y: 3 }, SearchDirection::Forward),
        Some(Position { x: 2, y: 3 })
    );
}

#[test]
fn find_past_the_last_match_wraps_to_the_first() {
    let doc = load(POD_YAML);
    let last = doc.find("an", &Position { x: 11, y: 13 }, SearchDirection::Forward);
    assert_eq!(last, Some(Position { x: 16, y: 22 }));
    assert_eq!(
        doc.find("an", &Position { x: 17, y: 22 }, SearchDirection::Forward),
        Some(Position { x: 2, y: 3 })
    );
}

#[test]
fn find_backward_wraps_to_the_last_row() {
    let doc = load(POD_YAML);
    assert_eq!(
        doc.find("an", &Position { x: 1, y: 3 }, SearchDirection::Backward),
        Some(Position { x: 16, y: 22 })
    );
    assert_eq!(
        doc.find("an", &Position { x: 16, y: 22 }, SearchDirection::Backward),
        Some(Position { x: 10, y: 13 })
    );
}

#[test]
fn find_backward_takes_the_last_match_before_the_cursor() {
    let lines = vec![String::from("abcabcabc")];
    let doc = Document::new(&lines, Tokenizer::Whitespace);
    assert_eq!(
        doc.find("abc", &Position { x: 8, y: 0 }, SearchDirection::Backward),
        Some(Position { x: 3, y: 0 })
    );
    assert_eq!(
        doc.find("abc", &Position { x: 9, y: 0 }, SearchDirection::Backward),
        Some(Position { x: 6, y: 0 })
    );
}

#[test]
fn find_does_not_look_before_the_cursor_in_its_own_row() {
    let lines = vec![String::from("needle here"), String::from("nothing")];
    let doc = Document::new(&lines, Tokenizer::Whitespace);
    assert_eq!(doc.find("needle", &Position { x: 1, y: 0 }, SearchDirection::Forward), None);
    assert_eq!(
        doc.find("needle", &Position { x: 0, y: 1 }, SearchDirection::Forward),
        Some(Position { x: 0, y: 0 })
    );
}

#[test]
fn find_with_empty_query_or_missing_row_finds_nothing() {
    let doc = load(POD_YAML);
    assert_eq!(doc.find("", &Position { x: 0, y: 0 }, SearchDirection::Forward), None);
    assert_eq!(doc.find("a", &Position { x: 0, y: 24 }, SearchDirection::Forward), None);
    assert_eq!(doc.find("a", &Position { x: 0, y: 24 }, SearchDirection::Backward), None);
    assert_eq!(doc.find("zebra", &Position { x: 0, y: 0 }, SearchDirection::Forward), None);
}

#[test]
fn load_keeps_every_line_as_it_is() {
    let lines = vec![
        String::from("a b  \t"),
        String::from(""),
        String::from("  longest row"),
        String::from("a,b"),
    ];
    let doc = Document::new(&lines, Tokenizer::Whitespace);
    assert_eq!(doc.len(), 4);
    assert!(!doc.is_empty());
    for y in 0..lines.len() {
        assert_eq!(doc.row(y).as_str(), lines[y]);
        assert_eq!(doc.row(y).width(), lines[y].chars().count());
        assert!(!doc.row(y).is_highlighted());
    }
    assert_eq!(doc.row(0).content_width(), 6);
    assert_eq!(doc.row(1).content_width(), 0);
    assert_eq!(doc.longest_row(), 12);
    assert_eq!(doc.row(0).tokens().len(), 2);
    assert_eq!(doc.row(1).tokens().len(), 0);
    assert_eq!(doc.tokenizer().as_str(), "whitespace (default)");
}

#[test]
fn load_with_a_delimiter_splits_the_lines_as_they_are() {
    let lines = vec![String::from("a,b"), String::from("ccc,ddd")];
    let doc = Document::new(&lines, Tokenizer::String(String::from(",")));
    assert_eq!(doc.row(0).as_str(), "a,b");
    let last = HighlightedText::new_token(Position { x: 1, y: 0 });
    assert_eq!(doc.get_text(&last), "b");
    let last = HighlightedText::new_token(Position { x: 1, y: 1 });
    assert_eq!(doc.get_text(&last), "ddd");
}

#[test]
fn search_reaches_the_end_of_a_row_with_combining_characters() {
    let lines = vec![String::from("plain"), String::from("e\u{301}an")];
    let doc = Document::new(&lines, Tokenizer::Whitespace);
    assert_eq!(doc.row(1).width(), 4);
    assert_eq!(doc.row(1).content_width(), 3);
    assert_eq!(
        doc.find("an", &Position { x: 0, y: 0 }, SearchDirection::Forward),
        Some(Position { x: 2, y: 1 })
    );
    assert_eq!(
        doc.find("an", &Position { x: 3, y: 1 }, SearchDirection::Forward),
        None
    );
    assert_eq!(
        doc.find("n", &Position { x: 0, y: 0 }, SearchDirection::Backward),
        Some(Position { x: 3, y: 1 })
    );
    assert_eq!(
        doc.find("n", &Position { x: 3, y: 1 }, SearchDirection::Forward),
        Some(Position { x: 3, y: 1 })
    );
    assert_eq!(
        doc.find("n", &Position { x: 4, y: 1 }, SearchDirection::Forward),
        Some(Position { x: 4, y: 0 })
    );
}

#[test]
fn searching_again_behind_a_match_finds_the_next_one() {
    let lines = vec![String::from("xa"), String::from("e\u{301}\u{302}a")];
    let doc = Document::new(&lines, Tokenizer::Whitespace);
    let first = doc.find("a", &Position { x: 0, y: 0 }, SearchDirection::Forward);
    assert_eq!(first, Some(Position { x: 1, y: 0 }));
    assert_eq!(
        doc.find("a", &Position { x: 2, y: 0 }, SearchDirection::Forward),
        Some(Position { x: 3, y: 1 })
    );
}

#[test]
fn selection_without_text_needs_no_row() {
    let doc = load(POD_YAML);
    let miss = HighlightedText::new_search(Position { x: 7, y: 999 }, None);
    assert_eq!(doc.get_text(&miss), "");
    let visual = HighlightedText::new_visual(Position { x: 7, y: 999 });
    assert_eq!(doc.get_text(&visual), "");
    let empty = Document::new(&Vec::new(), Tokenizer::Whitespace);
    assert_eq!(empty.get_text(&miss), "");
}

#[test]
fn empty_document_is_empty() {
    let lines: Vec<String> = Vec::new();
    let doc = Document::new(&lines, Tokenizer::Whitespace);
    assert!(doc.is_empty());
    assert_eq!(doc.len(), 0);
    assert_eq!(doc.longest_row(), 0);
}

#[test]
fn update_tokenizer_splits_every_row_anew() {
    let lines = vec![String::from("a,b c"), String::from("d e,f")];
    let mut doc = Document::new(&lines, Tokenizer::Whitespace);
    assert_eq!(doc.row(0).tokens().len(), 2);
    doc.update_tokenizer(Tokenizer::String(String::from(",")));
    assert_eq!(doc.tokenizer().as_str(), "','");
    let sel = HighlightedText::new_token(Position { x: 1, y: 0 });
    assert_eq!(doc.get_text(&sel), "b c");
    let sel = HighlightedText::new_token(Position { x: 0, y: 1 });
    assert_eq!(doc.get_text(&sel), "d e");
    doc.update_tokenizer(Tokenizer::Whitespace);
    let sel = HighlightedText::new_token(Position { x: 1, y: 1 });
    assert_eq!(doc.get_text(&sel), "e,f");
}

#[test]
fn get_text_of_each_kind_of_selection() {
    let doc = load(POD_YAML);
    let token = HighlightedText::new_token(Position { x: 1, y: 1 });
    assert_eq!(doc.get_text(&token), "Pod");
    let missing = HighlightedText::new_token(Position { x: 7, y: 1 });
    assert_eq!(doc.get_text(&missing), "");
    let hit = HighlightedText::new_search(Position { x: 2, y: 3 }, Some(2));
    assert_eq!(doc.get_text(&hit), "an");
    let miss = HighlightedText::new_search(Position { x: 2, y: 3 }, None);
    assert_eq!(doc.get_text(&miss), "");
    let mut visual = HighlightedText::new_visual(Position { x: 5, y: 3 });
    assert_eq!(doc.get_text(&visual), "");
    visual.update_position(Position { x: 2, y: 3 });
    assert_eq!(doc.get_text(&visual), "anno");
}

#[test]
fn visual_selection_does_not_depend_on_which_end_is_the_anchor() {
    let doc = load(POD_YAML);
    let a = Position { x: 6, y: 0 };
    let c = Position { x: 2, y: 2 };
    let mut one = HighlightedText::new_visual(a);
    one.update_position(c);
    let mut other = HighlightedText::new_visual(c);
    other.update_position(a);
    assert_eq!(doc.get_text(&one), "iVers\nnd: P\ntadat");
    assert_eq!(doc.get_text(&one), doc.get_text(&other));
    assert_eq!(other.mode, TextMode::Visual(c));
}

#[test]
fn highlight_marks_the_selection_and_nothing_else() {
    let mut doc = load(POD_YAML);
    let mut visual = HighlightedText::new_visual(Position { x: 3, y: 2 });
    visual.update_position(Position { x: 1, y: 4 });
    doc.highlight(&visual);
    for y in 0..doc.len() {
        assert_eq!(doc.row(y).is_highlighted(), (2..=4).contains(&y));
        for x in 0..doc.row(y).width() {
            let inside = (2..=4).contains(&y) && (1..=3).contains(&x);
            assert_eq!(doc.row(y).highlighted(x), inside);
        }
    }
    let token = HighlightedText::new_token(Position { x: 0, y: 9 });
    doc.highlight(&token);
    for y in 0..doc.len() {
        assert_eq!(doc.row(y).is_highlighted(), y == 9);
    }
    assert!(!doc.row(9).highlighted(1));
    assert!(doc.row(9).highlighted(2));
    assert!(doc.row(9).highlighted(19));
    assert!(!doc.row(9).highlighted(20));
    doc.unhighlight_rows();
    for y in 0..doc.len() {
        assert!(!doc.row(y).is_highlighted());
    }
    let nothing = HighlightedText::new_search(Position { x: 0, y: 99 }, Some(3));
    doc.highlight(&nothing);
    for y in 0..doc.len() {
        assert!(!doc.row(y).is_highlighted());
    }
}
