use html_forest::errors::ParseError;
use html_forest::node::Node;
use html_forest::parser::Parser;
use html_forest::serialize::serialize_forest;
use html_forest::tokenizer::{Token, TokenKind, Tokenizer};

fn lex(input: &str) -> Vec<Token> {
    let mut tokenizer = Tokenizer::new(input);
    tokenizer.tokenize().expect("tokenize failed")
}

fn parse_str(input: &str) -> Result<Option<Vec<Node>>, ParseError> {
    let mut tokenizer = Tokenizer::new(input);
    let toks = tokenizer.tokenize()?;
    let mut parser = Parser::new();
    parser.parse(toks)
}

fn forest(input: &str) -> Vec<Node> {
    parse_str(input)
        .expect("parse failed")
        .expect("empty forest")
}

fn tag(n: &Node) -> (&String, &Option<Box<Node>>, &Option<Vec<Node>>) {
    match n {
        Node::Tag {
            name,
            params,
            children,
        } => (name, params, children),
        _ => panic!("expected a tag node, got {:?}", n),
    }
}

fn solo(n: &Node) -> (&String, &Option<Box<Node>>) {
    match n {
        Node::SoloTag { name, params } => (name, params),
        _ => panic!("expected a solo tag node, got {:?}", n),
    }
}

fn pairs(p: &Option<Box<Node>>) -> Vec<(String, String)> {
    match p {
        None => vec![],
        Some(b) => match &**b {
            Node::Parameters { children } => children
                .iter()
                .map(|c| match c {
                    Node::Parameter { name, value } => {
                        let n = match &**name {
                            Node::Identifier { name } => name.clone(),
                            other => panic!("expected an identifier, got {:?}", other),
                        };
                        let v = match &**value {
                            Node::StringLit { value } => value.clone(),
                            other => panic!("expected a string value, got {:?}", other),
                        };
                        (n, v)
                    }
                    other => panic!("expected a parameter, got {:?}", other),
                })
                .collect(),
            other => panic!("expected a parameter list, got {:?}", other),
        },
    }
}

#[test]
fn tokenize() {
    let input = "<h1>hello, world</h1>";
    let mut tokenizer = Tokenizer::new(input);
    let token = tokenizer.tokenize();
    println!("{:#?}", token);
    let toks = token.expect("tokenize failed");
    let kinds: Vec<TokenKind> = toks.iter().map(|t| t.kind).collect();
    assert_eq!(
        kinds,
        vec![
            TokenKind::TagBegin,
            TokenKind::Text,
            TokenKind::TagEnd,
            TokenKind::Text,
            TokenKind::Text,
            TokenKind::Whitespace,
            TokenKind::Text,
            TokenKind::TagBegin,
            TokenKind::Slash,
            TokenKind::Text,
            TokenKind::TagEnd,
            TokenKind::Eof,
        ]
    );
    assert_eq!(toks[1].s, "h1");
    assert_eq!(toks[3].s, "hello");
    assert_eq!(toks[4].s, ",");
    assert_eq!(toks[5].s, "");
    assert_eq!(toks[6].s, "world");
    assert_eq!(toks[9].s, "h1");
}

#[test]
fn parse_only_decl() {
    let mut tokenizer_ = Tokenizer::new("<!doctype html><!-- hello, w--orld -->");
    let tok = tokenizer_.tokenize().expect("tokenize failed");

    let mut parser_ = Parser::new();
    let nodes = parser_.parse(tok);
    println!("{:#?}", nodes);
    let ns = nodes.expect("parse failed").expect("empty forest");
    assert_eq!(ns.len(), 2);
    assert!(matches!(&ns[0], Node::DoctypeTag { name } if name == "html"));
    assert!(matches!(&ns[1], Node::CommentTag { text } if text == " hello, w--orld "));
}

#[test]
fn parse_html_tag() {
    let mut tokenizer_ = Tokenizer::new("<html></html>");
    let tok = tokenizer_.tokenize().expect("tokenize failed");

    let mut parser_ = Parser::new();
    let nodes = parser_.parse(tok);
    println!("{:#?}", nodes);
    let ns = nodes.expect("parse failed").expect("empty forest");
    assert_eq!(ns.len(), 1);
    let (name, params, children) = tag(&ns[0]);
    assert_eq!(name, "html");
    assert!(params.is_none());
    assert!(children.is_none());
}

#[test]
fn parse_html_body() {
    let mut tokenizer_ = Tokenizer::new("<html><body></body></html>");
    let tok = tokenizer_.tokenize().expect("tokenize failed");

    let mut parser_ = Parser::new();
    let nodes = parser_.parse(tok);
    println!("{:#?}", nodes);
    let ns = nodes.expect("parse failed").expect("empty forest");
    assert_eq!(ns.len(), 1);
    let (name, _, children) = tag(&ns[0]);
    assert_eq!(name, "html");
    let kids = children.as_ref().expect("html should have children");
    assert_eq!(kids.len(), 1);
    let (inner, _, inner_children) = tag(&kids[0]);
    assert_eq!(inner, "body");
    assert!(inner_children.is_none());
}

#[test]
fn parse_html_body_h1_img() {
    let html = "<!DOCTYPE html> \
            <html>\
            <body>\
            <h1>hello</h1>\
            <img src=\"https://google.com\"/>\
            </body>\
            </html>";

    let mut tokenizer_ = Tokenizer::new(html);
    let tok = tokenizer_.tokenize().expect("tokenize failed");

    let mut parser_ = Parser::new();
    let nodes = parser_.parse(tok);
    println!("{:#?}", nodes);
    let ns = nodes.expect("parse failed").expect("empty forest");
    assert_eq!(ns.len(), 2);
    assert!(matches!(&ns[0], Node::DoctypeTag { name } if name == "html"));
    let (name, _, children) = tag(&ns[1]);
    assert_eq!(name, "html");
    let body = &children.as_ref().unwrap()[0];
    let (bname, _, bchildren) = tag(body);
    assert_eq!(bname, "body");
    let bkids = bchildren.as_ref().unwrap();
    assert_eq!(bkids.len(), 2);
    let (h1, _, h1kids) = tag(&bkids[0]);
    assert_eq!(h1, "h1");
    assert!(matches!(&h1kids.as_ref().unwrap()[0], Node::Text { text } if text == "hello"));
    let (img, img_params) = solo(&bkids[1]);
    assert_eq!(img, "img");
    assert_eq!(
        pairs(img_params),
        vec![("src".to_string(), "https://google.com".to_string())]
    );
}

#[test]
fn img_with_one_attribute() {
    let ns = forest("<img src=\"X\"/>");
    assert_eq!(ns.len(), 1);
    let (name, params) = solo(&ns[0]);
    assert_eq!(name, "img");
    assert_eq!(pairs(params), vec![("src".to_string(), "X".to_string())]);
}

#[test]
fn case_insensitive_tag_names() {
    let ns = forest("<HTML></html>");
    let (name, _, _) = tag(&ns[0]);
    assert_eq!(name, "html");

    let ns2 = forest("<html></HTML>");
    let (name2, _, _) = tag(&ns2[0]);
    assert_eq!(name2, "html");
}

#[test]
fn tag_mismatch_error() {
    let err = parse_str("<a>x</b>").unwrap_err();
    match err {
        ParseError::TagMissMatch { open, close } => {
            assert_eq!(open, "a");
            assert_eq!(close, "b");
        }
        other => panic!("expected a tag mismatch, got {:?}", other),
    }
}

#[test]
fn doctype_any_case() {
    let ns = forest("<!DoCtYpE html>");
    assert!(matches!(&ns[0], Node::DoctypeTag { name } if name == "html"));
    let ns2 = forest("<!DOCTYPE HTML>");
    assert!(matches!(&ns2[0], Node::DoctypeTag { name } if name == "html"));
}

#[test]
fn solo_tag_keeps_following_close_tag() {
    let ns = forest("<div><br/></div>");
    let (name, _, children) = tag(&ns[0]);
    assert_eq!(name, "div");
    let kids = children.as_ref().unwrap();
    assert_eq!(kids.len(), 1);
    let (br, _) = solo(&kids[0]);
    assert_eq!(br, "br");
}

#[test]
fn sibling_solo_tags() {
    let ns = forest("<br/><hr/>");
    assert_eq!(ns.len(), 2);
    let (a, _) = solo(&ns[0]);
    let (b, _) = solo(&ns[1]);
    assert_eq!(a, "br");
    assert_eq!(b, "hr");
}

#[test]
fn text_solo_text_siblings() {
    let ns = forest("hello<br/>world");
    assert_eq!(ns.len(), 3);
    assert!(matches!(&ns[0], Node::Text { text } if text == "hello"));
    let (br, _) = solo(&ns[1]);
    assert_eq!(br, "br");
    assert!(matches!(&ns[2], Node::Text { text } if text == "world"));
}

#[test]
fn text_run_discards_interleaved_whitespace() {
    // The text-accumulation rule drops the whitespace between text tokens
    // rather than reinserting it: "a b" concatenates to one "ab" node.
    let ns = forest("a b");
    assert_eq!(ns.len(), 1);
    assert!(matches!(&ns[0], Node::Text { text } if text == "ab"));
}

#[test]
fn empty_and_blank_input() {
    assert_eq!(parse_str("").expect("parse failed"), None);
    assert_eq!(parse_str("   \n\t ").expect("parse failed"), None);
}

#[test]
fn attribute_names_fold_values_keep_case() {
    let ns = forest("<img SRC=\"X\"/>");
    let (_, params) = solo(&ns[0]);
    assert_eq!(pairs(params), vec![("src".to_string(), "X".to_string())]);
}

#[test]
fn single_quoted_attribute_value() {
    let ns = forest("<a x='he\"llo'></a>");
    let (_, params, _) = tag(&ns[0]);
    assert_eq!(pairs(params), vec![("x".to_string(), "he\"llo".to_string())]);
}

#[test]
fn unterminated_string_error() {
    let err = parse_str("<img src=\"X/>").unwrap_err();
    assert!(matches!(err, ParseError::UnterminatedString { .. }));
}

#[test]
fn missing_close_tag_error() {
    let err = parse_str("<html>").unwrap_err();
    match err {
        ParseError::UnexpectedToken { expected, found } => {
            assert_eq!(expected, TokenKind::Slash);
            assert_eq!(found.kind, TokenKind::Eof);
        }
        other => panic!("expected an unexpected-token failure, got {:?}", other),
    }
}

#[test]
fn unquoted_attribute_value_error() {
    let err = parse_str("<a href=x></a>").unwrap_err();
    match err {
        ParseError::UnexpectedToken { expected, .. } => {
            assert_eq!(expected, TokenKind::StringLit);
        }
        other => panic!("expected an unexpected-token failure, got {:?}", other),
    }
}

#[test]
fn doctype_misspelled_error() {
    let err = parse_str("<!doctyp html>").unwrap_err();
    match err {
        ParseError::UnexpectedText { expected, .. } => {
            assert_eq!(expected, "doctype");
        }
        other => panic!("expected an unexpected-text failure, got {:?}", other),
    }
}

#[test]
fn nesting_depth_guard() {
    let mut input = String::new();
    for _ in 0..300 {
        input.push_str("<a>");
    }
    for _ in 0..300 {
        input.push_str("</a>");
    }
    let err = parse_str(&input).unwrap_err();
    assert!(matches!(err, ParseError::NestingTooDeep));
}

#[test]
fn nesting_within_bound_mirrors_depth() {
    let mut input = String::new();
    for _ in 0..100 {
        input.push_str("<a>");
    }
    for _ in 0..100 {
        input.push_str("</a>");
    }
    let ns = forest(&input);
    assert_eq!(ns.len(), 1);
    let mut cur = &ns[0];
    for depth in 0..100 {
        let (name, _, children) = tag(cur);
        assert_eq!(name, "a");
        if depth == 99 {
            assert!(children.is_none());
        } else {
            let kids = children.as_ref().unwrap();
            assert_eq!(kids.len(), 1);
            cur = &kids[0];
        }
    }
}

#[test]
fn serialize_round_trip() {
    let inputs = [
        "<!DOCTYPE html> <html><body><h1>hello</h1><img src=\"https://google.com\"/></body></html>",
        "<!doctype html><!-- hello, w--orld -->",
        "hello<br/>world",
        "<a x='he\"llo'></a>",
        "<HTML></html>",
    ];
    for input in inputs {
        let first = parse_str(input).expect("first parse failed");
        let markup = serialize_forest(&first);
        let second = parse_str(&markup).expect("second parse failed");
        assert_eq!(first, second, "round trip changed the forest for {:?}", input);
    }
}

#[test]
fn serialize_doctype_exact() {
    let first = parse_str("<!DOCTYPE html>").expect("parse failed");
    assert_eq!(serialize_forest(&first), "<!doctype html>");
}

#[test]
fn position_tracking_across_newlines() {
    let toks = lex("a\nb");
    // Each token records the scanner's position just after it was consumed.
    assert_eq!(toks[0].kind, TokenKind::Text);
    assert_eq!(toks[0].pos.line_no, 1);
    assert_eq!(toks[0].pos.at_whole, 1);
    assert_eq!(toks[1].kind, TokenKind::Whitespace);
    assert_eq!(toks[1].pos.line_no, 2);
    assert_eq!(toks[1].pos.at_line, 0);
    assert_eq!(toks[1].pos.at_whole, 2);
    assert_eq!(toks[2].kind, TokenKind::Text);
    assert_eq!(toks[2].pos.line_no, 2);
    assert_eq!(toks[2].pos.at_line, 1);
    assert_eq!(toks[2].pos.at_whole, 3);
}

#[test]
fn absolute_offset_never_decreases() {
    let toks = lex("<html><body>text, more</body></html>");
    for w in toks.windows(2) {
        assert!(w[0].pos.at_whole <= w[1].pos.at_whole);
    }
}

#[test]
fn lookahead_without_consuming() {
    let tokenizer = Tokenizer::new("abc");
    assert_eq!(tokenizer.peek(0), 'a');
    assert_eq!(tokenizer.peek(2), 'c');
    assert!(tokenizer.start_with("ab"));
    assert!(tokenizer.start_with("abc"));
    assert!(!tokenizer.start_with("abd"));
    assert!(!tokenizer.start_with("abcd"));
}

#[test]
fn comment_collapses_whitespace_runs() {
    let ns = forest("<!--  a   b -->");
    assert!(matches!(&ns[0], Node::CommentTag { text } if text == " a b "));
}

#[test]
fn stray_close_tag_stops_quietly() {
    // A close tag at top level ends the parse without error; what was
    // parsed before it is returned and the rest is left unread.
    let r = parse_str("</html>").expect("parse failed");
    assert_eq!(r, None);
    let ns = forest("hello</html>x");
    assert_eq!(ns.len(), 1);
    assert!(matches!(&ns[0], Node::Text { text } if text == "hello"));
}
