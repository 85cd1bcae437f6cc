use rsscript::token::{
    group_end, ipeekn, keyword, peek_keyword, Cursor, Delimiter, ErrorKind, Expected, Keyword,
    Token,
};

fn ident(s: &str) -> Token {
    Token::Ident(s.to_string())
}

#[test]
fn token_ipeek_test() {
    let toks = vec![ident("rust"), ident("impl"), ident("case")];
    let mut cursor = Cursor::new(&toks);
    assert!(cursor.ipeek(&toks, Keyword::Rust));
    assert!(cursor.ipeekn(&toks, 2, Keyword::Impl));
    assert!(cursor.ipeekn(&toks, 3, Keyword::Case));
    cursor.keyword(&toks, Keyword::Rust).unwrap();
    cursor.keyword(&toks, Keyword::Impl).unwrap();
    cursor.keyword(&toks, Keyword::Case).unwrap();
    assert!(cursor.is_empty());
}

#[test]
fn classifier_is_stable_and_does_not_consume() {
    let toks = vec![ident("klass"), ident("class")];
    let mut cursor = Cursor::new(&toks);
    let first = cursor.ipeek(&toks, Keyword::Class);
    let second = cursor.ipeek(&toks, Keyword::Class);
    assert!(!first);
    assert_eq!(first, second);
    let before = cursor;
    let err = cursor.keyword(&toks, Keyword::Class).unwrap_err();
    assert_eq!(cursor, before);
    assert_eq!(err.kind, ErrorKind::Expected(Expected::Keyword(Keyword::Class)));
    assert_eq!(err.pos, 0);
    assert!(!cursor.ipeek(&toks, Keyword::Class));
    assert!(cursor.ipeekn(&toks, 2, Keyword::Class));
}

#[test]
fn lookahead_skips_groups_as_one_tree() {
    let toks = vec![
        ident("export"),
        Token::Open(Delimiter::Parenthesis),
        ident("class"),
        Token::Open(Delimiter::Bracket),
        Token::Close(Delimiter::Bracket),
        Token::Close(Delimiter::Parenthesis),
        ident("class"),
    ];
    assert!(ipeekn(&toks, 0, toks.len(), 3, Keyword::Class));
    assert!(!ipeekn(&toks, 0, toks.len(), 2, Keyword::Class));
    assert!(!ipeekn(&toks, 0, toks.len(), 4, Keyword::Class));
    assert_eq!(group_end(&toks, 1, toks.len()), Some(5));
    assert_eq!(group_end(&toks, 1, 5), None);
    assert_eq!(group_end(&toks, 0, toks.len()), None);
}

#[test]
fn mismatched_close_is_no_group() {
    let toks = vec![Token::Open(Delimiter::Brace), Token::Close(Delimiter::Parenthesis)];
    assert_eq!(group_end(&toks, 0, toks.len()), None);
}

#[test]
fn keyword_consumes_one_token() {
    let toks = vec![ident("function"), ident("f")];
    assert!(peek_keyword(&toks, 0, Keyword::Function));
    assert!(!peek_keyword(&toks, 1, Keyword::Function));
    assert!(!peek_keyword(&toks, 2, Keyword::Function));
    assert_eq!(keyword(&toks, 0, toks.len(), Keyword::Function), Ok(1));
    assert!(keyword(&toks, 1, toks.len(), Keyword::Function).is_err());
    let mut c = Cursor::new(&toks);
    let fork = c.fork();
    let mut f2 = fork;
    f2.keyword(&toks, Keyword::Function).unwrap();
    c.advance_to(&f2);
    assert_eq!(c.pos, 1);
    assert!(c.punct(&toks, ';').is_err());
    assert_eq!(c.pos, 1);
}
