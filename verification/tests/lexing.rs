use hella::lexer::lex;
use hella::token::Token;

#[test]
fn empty() {
    let out = lex("");
    assert!(out.tokens.is_empty());
    assert!(out.errors.is_empty());
}

#[test]
fn newlines_preserved() {
    let out = lex("int x\nint y;");
    assert!(out.errors.is_empty());
    // int, x, newline, int, y, ;
    let kinds: Vec<_> = out.tokens.iter().map(|t| t.token.describe()).collect();
    assert!(kinds.contains(&"<newline>".to_string()));
    assert_eq!(kinds.len(), 6);
}

#[test]
fn comments_skipped() {
    let src = r#"
            // line comment
            int x = 1 /* block comment */ ;
        "#;
    let out = lex(src);
    assert!(out.errors.is_empty());
    assert!(out.tokens.iter().any(|t| t.token == Token::Int));
}

#[test]
fn keywords_not_ident() {
    let out = lex("int if else while do end has");
    assert_eq!(
        out.tokens
            .iter()
            .filter(|t| t.token != Token::Newline)
            .map(|t| t.token.clone())
            .collect::<Vec<_>>(),
        vec![
            Token::Int,
            Token::If,
            Token::Else,
            Token::While,
            Token::Do,
            Token::End,
            Token::Has
        ]
    );
}

#[test]
fn spans_count_bytes() {
    let out = lex("é x");
    assert_eq!(out.errors.len(), 1);
    assert_eq!(out.errors[0].slice, "é");
    assert_eq!(out.errors[0].message(), "unexpected token `é` at 0..2");
    assert_eq!(out.tokens.len(), 1);
    assert_eq!((out.tokens[0].span.start, out.tokens[0].span.end), (3, 4));
}

#[test]
fn string_holes_are_lexed_as_tokens() {
    let out = lex("\"a {x} b\"");
    assert!(out.errors.is_empty());
    let kinds: Vec<Token> = out.tokens.iter().map(|t| t.token).collect();
    assert_eq!(kinds, vec![Token::StringHead, Token::Ident, Token::StringTail]);
}

#[test]
fn tokens_follow_one_another() {
    let src = "int x = 1 § ∂ \"a{x}b\" ~ `\n/* c */ y\n";
    let lexed = lex(src);
    assert!(!lexed.tokens.is_empty());
    assert!(!lexed.errors.is_empty());
    for t in &lexed.tokens {
        assert!(t.span.start < t.span.end && t.span.end <= src.len());
    }
    for w in lexed.tokens.windows(2) {
        assert!(w[0].span.end <= w[1].span.start);
    }
    for w in lexed.errors.windows(2) {
        assert!(w[0].span.end <= w[1].span.start);
    }
}

#[test]
fn every_character_has_its_place() {
    let src = "int x § = 1 // c\n/* d */ y ` \"a{x}b\"\t~\r\n";
    let lexed = lex(src);
    let mut spans: Vec<(usize, usize)> = lexed.tokens.iter().map(|t| (t.span.start, t.span.end)).collect();
    spans.extend(lexed.errors.iter().map(|e| (e.span.start, e.span.end)));
    spans.sort();
    let mut at = 0;
    let mut gaps = String::new();
    for (start, end) in spans {
        assert!(at <= start && start < end);
        gaps.push_str(&src[at..start]);
        at = end;
    }
    gaps.push_str(&src[at..]);
    assert_eq!(gaps.replace([' ', '\t', '\r'], ""), "//c/*d*/");
}
