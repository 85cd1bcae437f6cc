use vstd::prelude::*;

verus! {

/// The three bracket kinds that the lexer pairs up.
#[derive(Clone, Copy, PartialEq, Eq, Debug, Structural)]
pub enum Delimiter {
    Parenthesis,
    Brace,
    Bracket,
}

/// One lexed token. Bracketed groups are flattened into an `Open` token, the
/// group's tokens, and a `Close` token. A punctuation character is `joint`
/// when the next character of the source is punctuation too (`=` in `=>`).
#[derive(Clone, Debug)]
pub enum Token {
    Ident(String),
    Punct { ch: char, joint: bool },
    Literal(String),
    Open(Delimiter),
    Close(Delimiter),
}

/// A half-open range `lo..hi` of token positions.
#[derive(Clone, Copy, PartialEq, Eq, Debug, Structural)]
pub struct Span {
    pub lo: usize,
    pub hi: usize,
}

impl Span {
    pub open spec fn is(self, lo: int, hi: int) -> bool {
        self.lo == lo && self.hi == hi
    }
}

/// The contextual keywords: identifiers that some grammar rule looks for by
/// spelling at one position.
#[derive(Clone, Copy, PartialEq, Eq, Debug, Structural)]
pub enum Keyword {
    Rust,
    Function,
    Export,
    Private,
    Public,
    Protected,
    Class,
    Extends,
    Interface,
    Static,
    Switch,
    Case,
    Default,
    If,
    Else,
    For,
    While,
    Do,
    In,
    Await,
    Async,
    Let,
    Const,
    Type,
    Impl,
    Return,
}

impl Keyword {
    pub open spec fn spelling(self) -> Seq<char> {
        match self {
            Keyword::Rust => "rust"@,
            Keyword::Function => "function"@,
            Keyword::Export => "export"@,
            Keyword::Private => "private"@,
            Keyword::Public => "public"@,
            Keyword::Protected => "protected"@,
            Keyword::Class => "class"@,
            Keyword::Extends => "extends"@,
            Keyword::Interface => "interface"@,
            Keyword::Static => "static"@,
            Keyword::Switch => "switch"@,
            Keyword::Case => "case"@,
            Keyword::Default => "default"@,
            Keyword::If => "if"@,
            Keyword::Else => "else"@,
            Keyword::For => "for"@,
            Keyword::While => "while"@,
            Keyword::Do => "do"@,
            Keyword::In => "in"@,
            Keyword::Await => "await"@,
            Keyword::Async => "async"@,
            Keyword::Let => "let"@,
            Keyword::Const => "const"@,
            Keyword::Type => "type"@,
            Keyword::Impl => "impl"@,
            Keyword::Return => "return"@,
        }
    }

    /// The spelling that marks this keyword in the source.
    pub fn text(self) -> (r: &'static str)
        ensures
            r@ == self.spelling(),
    {
        match self {
            Keyword::Rust => "rust",
            Keyword::Function => "function",
            Keyword::Export => "export",
            Keyword::Private => "private",
            Keyword::Public => "public",
            Keyword::Protected => "protected",
            Keyword::Class => "class",
            Keyword::Extends => "extends",
            Keyword::Interface => "interface",
            Keyword::Static => "static",
            Keyword::Switch => "switch",
            Keyword::Case => "case",
            Keyword::Default => "default",
            Keyword::If => "if",
            Keyword::Else => "else",
            Keyword::For => "for",
            Keyword::While => "while",
            Keyword::Do => "do",
            Keyword::In => "in",
            Keyword::Await => "await",
            Keyword::Async => "async",
            Keyword::Let => "let",
            Keyword::Const => "const",
            Keyword::Type => "type",
            Keyword::Impl => "impl",
            Keyword::Return => "return",
        }
    }
}

/// What a rule needed at the position where it failed.
#[derive(Clone, Copy, PartialEq, Eq, Debug, Structural)]
pub enum Expected {
    Keyword(Keyword),
    Punct(char),
    Ident,
    Literal,
    Lifetime,
    Open(Delimiter),
    Close(Delimiter),
    Type,
    Pattern,
    End,
}

/// The tagged unions that are parsed by trying their forms in order.
#[derive(Clone, Copy, PartialEq, Eq, Debug, Structural)]
pub enum Rule {
    Expr,
    Stmt,
    Item,
    ArmDecl,
    ForHeader,
    ClassMember,
    InterfaceItem,
    GenericsParam,
}

#[derive(Clone, Copy, PartialEq, Eq, Debug, Structural)]
pub enum ErrorKind {
    /// A given token or rule was required and not found.
    Expected(Expected),
    /// No form of a tagged union matched.
    NoMatch(Rule),
    /// Two trailing forms that exclude each other could not be told apart.
    Conflict,
}

/// The single error of a failed parse: what went wrong, and at which token.
#[derive(Clone, Copy, PartialEq, Eq, Debug, Structural)]
pub struct ParseError {
    pub pos: usize,
    pub kind: ErrorKind,
}

pub open spec fn word_at(t: Seq<Token>, i: int, w: Seq<char>) -> bool {
    0 <= i < t.len() && t[i] is Ident && t[i]->Ident_0@ == w
}

pub open spec fn kw_at(t: Seq<Token>, i: int, k: Keyword) -> bool {
    word_at(t, i, k.spelling())
}

pub open spec fn ident_at(t: Seq<Token>, i: int) -> bool {
    0 <= i < t.len() && t[i] is Ident
}

pub open spec fn literal_at(t: Seq<Token>, i: int) -> bool {
    0 <= i < t.len() && t[i] is Literal
}

pub open spec fn punct_at(t: Seq<Token>, i: int, c: char) -> bool {
    0 <= i < t.len() && t[i] is Punct && t[i]->ch == c
}

pub open spec fn joint_at(t: Seq<Token>, i: int, c: char) -> bool {
    punct_at(t, i, c) && t[i]->joint
}

pub open spec fn open_at(t: Seq<Token>, i: int, d: Delimiter) -> bool {
    0 <= i < t.len() && t[i] == Token::Open(d)
}

pub open spec fn close_at(t: Seq<Token>, i: int, d: Delimiter) -> bool {
    0 <= i < t.len() && t[i] == Token::Close(d)
}

/// The net nesting that the tokens `lo..hi` add: one for each `Open`, minus one
/// for each `Close`.
pub open spec fn depth(t: Seq<Token>, lo: int, hi: int) -> int
    decreases hi - lo,
{
    if hi <= lo {
        0
    } else {
        depth(t, lo, hi - 1) + match t[hi - 1] {
            Token::Open(_) => 1int,
            Token::Close(_) => -1int,
            _ => 0int,
        }
    }
}

/// `c` closes the group that the `Open` token at `o` starts: no prefix of the
/// tokens after `o` returns to its level before `c` does.
pub open spec fn closes(t: Seq<Token>, o: int, c: int) -> bool {
    &&& 0 <= o < c < t.len()
    &&& t[o] is Open
    &&& t[c] == Token::Close(t[o]->Open_0)
    &&& depth(t, o, c + 1) == 0
    &&& forall|k: int| o < k <= c ==> #[trigger] depth(t, o, k) > 0
}

/// An optional single token: when present it is the keyword `k` at `lo` and
/// the run ends after it, else the run is empty.
pub open spec fn opt_kw(t: Seq<Token>, o: Option<usize>, lo: int, hi: int, k: Keyword) -> bool {
    match o {
        Some(i) => i == lo && hi == lo + 1 && kw_at(t, lo, k),
        None => hi == lo,
    }
}

/// An optional single punctuation token, as `opt_kw`.
pub open spec fn opt_punct(t: Seq<Token>, o: Option<usize>, lo: int, hi: int, c: char) -> bool {
    match o {
        Some(i) => i == lo && hi == lo + 1 && punct_at(t, lo, c),
        None => hi == lo,
    }
}

/// `=>` at `i`.
pub open spec fn arrow_at(t: Seq<Token>, i: int) -> bool {
    joint_at(t, i, '=') && punct_at(t, i + 1, '>')
}

/// A `=` that is not the start of `==` or `=>`.
pub open spec fn assign_eq_at(t: Seq<Token>, i: int) -> bool {
    punct_at(t, i, '=') && !(joint_at(t, i, '=') && (punct_at(t, i + 1, '=') || punct_at(t, i + 1, '>')))
}

/// The number of tokens of the binary operator at `i` (two for `==`, `!=`,
/// `<=`, `>=`, `&&`, `||`; one for `+ - * / % < > & | ^`), or zero.
pub open spec fn binop_len(t: Seq<Token>, i: int, lim: int) -> int {
    if i >= lim {
        0
    } else if i + 1 < lim && (
        (joint_at(t, i, '=') && punct_at(t, i + 1, '='))
        || (joint_at(t, i, '!') && punct_at(t, i + 1, '='))
        || (joint_at(t, i, '<') && punct_at(t, i + 1, '='))
        || (joint_at(t, i, '>') && punct_at(t, i + 1, '='))
        || (joint_at(t, i, '&') && punct_at(t, i + 1, '&'))
        || (joint_at(t, i, '|') && punct_at(t, i + 1, '|'))) {
        2
    } else if punct_at(t, i, '+') || punct_at(t, i, '-') || punct_at(t, i, '*') || punct_at(t, i, '/')
        || punct_at(t, i, '%') || punct_at(t, i, '<') || punct_at(t, i, '>') || punct_at(t, i, '&')
        || punct_at(t, i, '|') || punct_at(t, i, '^') {
        1
    } else {
        0
    }
}

pub fn peek_arrow(toks: &Vec<Token>, i: usize, lim: usize) -> (r: bool)
    requires
        lim <= toks@.len(),
    ensures
        r == (i < lim && i + 1 < lim && arrow_at(toks@, i as int)),
{
    i < lim && i + 1 < lim && peek_joint(toks, i, '=') && peek_punct(toks, i + 1, '>')
}

pub fn peek_assign_eq(toks: &Vec<Token>, i: usize, lim: usize) -> (r: bool)
    requires
        lim <= toks@.len(),
    ensures
        r == (i < lim && assign_eq_at(toks@, i as int)),
{
    i < lim && peek_punct(toks, i, '=') && !(peek_joint(toks, i, '=') && i + 1 < toks.len() && (
    peek_punct(toks, i + 1, '=') || peek_punct(toks, i + 1, '>')))
}

pub fn binop_len_at(toks: &Vec<Token>, i: usize, lim: usize) -> (r: usize)
    requires
        lim <= toks@.len(),
    ensures
        r as int == binop_len(toks@, i as int, lim as int),
        r <= 2,
{
    if i >= lim {
        0
    } else if i + 1 < lim && (
        (peek_joint(toks, i, '=') && peek_punct(toks, i + 1, '='))
        || (peek_joint(toks, i, '!') && peek_punct(toks, i + 1, '='))
        || (peek_joint(toks, i, '<') && peek_punct(toks, i + 1, '='))
        || (peek_joint(toks, i, '>') && peek_punct(toks, i + 1, '='))
        || (peek_joint(toks, i, '&') && peek_punct(toks, i + 1, '&'))
        || (peek_joint(toks, i, '|') && peek_punct(toks, i + 1, '|'))) {
        2
    } else if peek_punct(toks, i, '+') || peek_punct(toks, i, '-') || peek_punct(toks, i, '*')
        || peek_punct(toks, i, '/') || peek_punct(toks, i, '%') || peek_punct(toks, i, '<')
        || peek_punct(toks, i, '>') || peek_punct(toks, i, '&') || peek_punct(toks, i, '|')
        || peek_punct(toks, i, '^') {
        1
    } else {
        0
    }
}

/// `r` equals `a@ == b@`: two strings compared character by character.
pub fn same_text(a: &str, b: &str) -> (r: bool)
    ensures
        r == (a@ == b@),
{
    let n = a.unicode_len();
    if n != b.unicode_len() {
        return false;
    }
    let mut i: usize = 0;
    while i < n
        invariant
            n == a@.len(),
            n == b@.len(),
            i <= n,
            forall|k: int| 0 <= k < i ==> a@[k] == b@[k],
        decreases n - i,
    {
        if a.get_char(i) != b.get_char(i) {
            return false;
        }
        i = i + 1;
    }
    assert(a@ =~= b@);
    true
}

/// Whether the token at `i` is the identifier spelled `w`. Looks only; an
/// index past the end gives `false`.
pub fn peek_word(toks: &Vec<Token>, i: usize, w: &str) -> (r: bool)
    ensures
        r == word_at(toks@, i as int, w@),
{
    if i < toks.len() {
        match &toks[i] {
            Token::Ident(s) => same_text(s.as_str(), w),
            _ => false,
        }
    } else {
        false
    }
}

/// The token classifier: whether the token at `i` is the keyword `k`.
pub fn peek_keyword(toks: &Vec<Token>, i: usize, k: Keyword) -> (r: bool)
    ensures
        r == kw_at(toks@, i as int, k),
{
    peek_word(toks, i, k.text())
}

pub fn peek_ident(toks: &Vec<Token>, i: usize) -> (r: bool)
    ensures
        r == ident_at(toks@, i as int),
{
    i < toks.len() && matches!(toks[i], Token::Ident(_))
}

pub fn peek_literal(toks: &Vec<Token>, i: usize) -> (r: bool)
    ensures
        r == literal_at(toks@, i as int),
{
    i < toks.len() && matches!(toks[i], Token::Literal(_))
}

pub fn peek_punct(toks: &Vec<Token>, i: usize, c: char) -> (r: bool)
    ensures
        r == punct_at(toks@, i as int, c),
{
    if i < toks.len() {
        match &toks[i] {
            Token::Punct { ch, joint: _ } => *ch == c,
            _ => false,
        }
    } else {
        false
    }
}

pub fn peek_joint(toks: &Vec<Token>, i: usize, c: char) -> (r: bool)
    ensures
        r == joint_at(toks@, i as int, c),
{
    if i < toks.len() {
        match &toks[i] {
            Token::Punct { ch, joint } => *ch == c && *joint,
            _ => false,
        }
    } else {
        false
    }
}

pub fn peek_open(toks: &Vec<Token>, i: usize, d: Delimiter) -> (r: bool)
    ensures
        r == open_at(toks@, i as int, d),
{
    if i < toks.len() {
        match &toks[i] {
            Token::Open(e) => *e == d,
            _ => false,
        }
    } else {
        false
    }
}

pub fn peek_close(toks: &Vec<Token>, i: usize, d: Delimiter) -> (r: bool)
    ensures
        r == close_at(toks@, i as int, d),
{
    if i < toks.len() {
        match &toks[i] {
            Token::Close(e) => *e == d,
            _ => false,
        }
    } else {
        false
    }
}


/// Nothing in `o + 1..c` brings the nesting back to the level of `o`, so two
/// positions that close one group are the same.
pub proof fn lemma_closes_unique(t: Seq<Token>, o: int, c1: int, c2: int)
    requires
        closes(t, o, c1),
        closes(t, o, c2),
    ensures
        c1 == c2,
{
    if c1 < c2 {
        assert(depth(t, o, c1 + 1) > 0);
    } else if c2 < c1 {
        assert(depth(t, o, c2 + 1) > 0);
    }
}

/// One token tree starts at `i` and ends before `lim`: a token that is no
/// bracket, or a whole bracketed group.
pub open spec fn has_tree(t: Seq<Token>, i: int, lim: int) -> bool {
    &&& 0 <= i < lim <= t.len()
    &&& !(t[i] is Close)
    &&& t[i] is Open ==> exists|c: int| c < lim && closes(t, i, c)
}

/// The position just after the token tree that starts at `i`.
pub open spec fn tree_after(t: Seq<Token>, i: int) -> int {
    if t[i] is Open {
        (choose|c: int| closes(t, i, c)) + 1
    } else {
        i + 1
    }
}

/// The position reached from `i` by skipping `n` whole token trees, none of
/// them reaching `lim`.
pub open spec fn skip_trees(t: Seq<Token>, i: int, n: nat, lim: int) -> Option<int>
    decreases n,
{
    if n == 0 {
        Some(i)
    } else if has_tree(t, i, lim) {
        skip_trees(t, tree_after(t, i), (n - 1) as nat, lim)
    } else {
        None
    }
}

/// The closing token of the group that opens at `pos`, when it lies before
/// `lim`.
pub fn group_end(toks: &Vec<Token>, pos: usize, lim: usize) -> (r: Option<usize>)
    requires
        lim <= toks@.len(),
    ensures
        r matches Some(c) ==> c < lim && closes(toks@, pos as int, c as int),
        r is None ==> forall|c: int| c < lim ==> !closes(toks@, pos as int, c),
{
    if pos >= lim {
        return None;
    }
    let d = match &toks[pos] {
        Token::Open(d) => *d,
        _ => {
            return None;
        },
    };
    let ghost t = toks@;
    let mut k: usize = pos + 1;
    let mut level: usize = 1;
    assert(depth(t, pos as int, pos as int) == 0);
    assert(depth(t, pos as int, pos + 1) == 1);
    while k < lim
        invariant
            pos < k <= lim <= t.len(),
            t == toks@,
            t[pos as int] == Token::Open(d),
            level as int == depth(t, pos as int, k as int),
            0 < level <= k - pos,
            forall|j: int| pos < j <= k ==> #[trigger] depth(t, pos as int, j) > 0,
        decreases lim - k,
    {
        assert(depth(t, pos as int, k + 1) == depth(t, pos as int, k as int) + match t[k as int] {
            Token::Open(_) => 1int,
            Token::Close(_) => -1int,
            _ => 0int,
        });
        match &toks[k] {
            Token::Open(_) => {
                level = level + 1;
            },
            Token::Close(e) => {
                if level == 1 {
                    if *e == d {
                        return Some(k);
                    } else {
                        assert forall|c: int| c < lim implies !closes(t, pos as int, c) by {
                            if c > k && closes(t, pos as int, c) {
                                assert(depth(t, pos as int, k + 1) > 0);
                            }
                        }
                        return None;
                    }
                }
                level = level - 1;
            },
            _ => {},
        }
        k = k + 1;
    }
    assert forall|c: int| c < lim implies !closes(t, pos as int, c) by {
        if closes(t, pos as int, c) {
            assert(depth(t, pos as int, c + 1) > 0);
        }
    }
    None
}

/// The position after the token tree at `i`, if one starts there and ends
/// before `lim`.
pub fn skip_tree(toks: &Vec<Token>, i: usize, lim: usize) -> (r: Option<usize>)
    requires
        lim <= toks@.len(),
    ensures
        r is Some <==> has_tree(toks@, i as int, lim as int),
        r matches Some(j) ==> j == tree_after(toks@, i as int) && i < j <= lim,
{
    if i >= lim {
        return None;
    }
    match &toks[i] {
        Token::Open(_) => match group_end(toks, i, lim) {
            Some(c) => {
                proof {
                    let c2 = choose|c2: int| closes(toks@, i as int, c2);
                    lemma_closes_unique(toks@, i as int, c as int, c2);
                }
                Some(c + 1)
            },
            None => None,
        },
        Token::Close(_) => None,
        _ => Some(i + 1),
    }
}

/// Multi-token lookahead: whether the keyword `k` stands at the start of the
/// `n`-th token tree from `pos` (counting from one), each bracketed group
/// counting as one tree. Consumes nothing.
pub fn ipeekn(toks: &Vec<Token>, pos: usize, lim: usize, n: usize, k: Keyword) -> (r: bool)
    requires
        lim <= toks@.len(),
        n >= 1,
    ensures
        r == (skip_trees(toks@, pos as int, (n - 1) as nat, lim as int) matches Some(j)
            && j < lim && kw_at(toks@, j, k)),
{
    let mut i: usize = pos;
    let mut m: usize = 1;
    while m < n
        invariant
            1 <= m <= n,
            lim <= toks@.len(),
            skip_trees(toks@, pos as int, (n - 1) as nat, lim as int) == skip_trees(
                toks@,
                i as int,
                (n - m) as nat,
                lim as int,
            ),
        decreases n - m,
    {
        match skip_tree(toks, i, lim) {
            Some(j) => {
                i = j;
            },
            None => {
                return false;
            },
        }
        m = m + 1;
    }
    i < lim && peek_keyword(toks, i, k)
}

/// Whether the keyword `k` is the next token before `lim`.
pub fn ipeek(toks: &Vec<Token>, pos: usize, lim: usize, k: Keyword) -> (r: bool)
    requires
        lim <= toks@.len(),
    ensures
        r == (pos < lim && kw_at(toks@, pos as int, k)),
{
    pos < lim && peek_keyword(toks, pos, k)
}

pub open spec fn expected(pos: int, e: Expected) -> ParseError {
    ParseError { pos: pos as usize, kind: ErrorKind::Expected(e) }
}

/// Consumes the keyword `k` at `pos`, or fails naming it.
pub fn keyword(toks: &Vec<Token>, pos: usize, lim: usize, k: Keyword) -> (r: Result<usize, ParseError>)
    requires
        lim <= toks@.len(),
    ensures
        r is Ok <==> (pos < lim && kw_at(toks@, pos as int, k)),
        r matches Ok(p) ==> p == pos + 1,
        r matches Err(e) ==> e == expected(pos as int, Expected::Keyword(k)),
{
    if ipeek(toks, pos, lim, k) {
        Ok(pos + 1)
    } else {
        Err(ParseError { pos, kind: ErrorKind::Expected(Expected::Keyword(k)) })
    }
}

/// Consumes the punctuation `c` at `pos`, or fails naming it.
pub fn expect_punct(toks: &Vec<Token>, pos: usize, lim: usize, c: char) -> (r: Result<usize, ParseError>)
    requires
        lim <= toks@.len(),
    ensures
        r is Ok <==> (pos < lim && punct_at(toks@, pos as int, c)),
        r matches Ok(p) ==> p == pos + 1,
        r matches Err(e) ==> e == expected(pos as int, Expected::Punct(c)),
{
    if pos < lim && peek_punct(toks, pos, c) {
        Ok(pos + 1)
    } else {
        Err(ParseError { pos, kind: ErrorKind::Expected(Expected::Punct(c)) })
    }
}

/// Consumes an identifier at `pos`, keyword-spelled or not.
pub fn expect_ident(toks: &Vec<Token>, pos: usize, lim: usize) -> (r: Result<usize, ParseError>)
    requires
        lim <= toks@.len(),
    ensures
        r is Ok <==> (pos < lim && ident_at(toks@, pos as int)),
        r matches Ok(p) ==> p == pos + 1,
        r matches Err(e) ==> e == expected(pos as int, Expected::Ident),
{
    if pos < lim && peek_ident(toks, pos) {
        Ok(pos + 1)
    } else {
        Err(ParseError { pos, kind: ErrorKind::Expected(Expected::Ident) })
    }
}

/// The closing token of the group of kind `d` that opens at `pos`.
pub fn expect_group(toks: &Vec<Token>, pos: usize, lim: usize, d: Delimiter) -> (r: Result<usize, ParseError>)
    requires
        lim <= toks@.len(),
    ensures
        r matches Ok(c) ==> c < lim && open_at(toks@, pos as int, d) && closes(toks@, pos as int, c as int),
        r is Ok <==> crate::grammar::group_end_of(toks@, pos as int, lim as int, d) is Some,
        r matches Ok(c) ==> crate::grammar::group_end_of(toks@, pos as int, lim as int, d) == Some(c as int),
{
    if !(pos < lim && peek_open(toks, pos, d)) {
        return Err(ParseError { pos, kind: ErrorKind::Expected(Expected::Open(d)) });
    }
    match group_end(toks, pos, lim) {
        Some(c) => {
            proof {
                let c2 = choose|c2: int| c2 < lim && closes(toks@, pos as int, c2);
                lemma_closes_unique(toks@, pos as int, c as int, c2);
            }
            Ok(c)
        },
        None => Err(ParseError { pos, kind: ErrorKind::Expected(Expected::Close(d)) }),
    }
}

/// A reading position over a token sequence, and the end of the group being
/// read. Forking copies it; committing moves a cursor to a fork's position.
/// Tokens are never changed through it.
#[derive(Clone, Copy, PartialEq, Eq, Debug, Structural)]
pub struct Cursor {
    pub pos: usize,
    pub lim: usize,
}

impl Cursor {
    pub open spec fn valid(self, t: Seq<Token>) -> bool {
        self.pos <= self.lim <= t.len()
    }

    /// A cursor at the start of the whole sequence.
    pub fn new(toks: &Vec<Token>) -> (r: Cursor)
        ensures
            r.pos == 0,
            r.lim == toks@.len(),
    {
        Cursor { pos: 0, lim: toks.len() }
    }

    /// A copy to try a rule on.
    pub fn fork(&self) -> (r: Cursor)
        ensures
            r == *self,
    {
        *self
    }

    /// Moves to the position a fork reached.
    pub fn advance_to(&mut self, fork: &Cursor)
        requires
            old(self).lim == fork.lim,
            old(self).pos <= fork.pos,
        ensures
            *final(self) == *fork,
    {
        self.pos = fork.pos;
    }

    pub fn is_empty(&self) -> (r: bool)
        ensures
            r == (self.pos >= self.lim),
    {
        self.pos >= self.lim
    }

    /// Whether the next token is the keyword `k`.
    pub fn ipeek(&self, toks: &Vec<Token>, k: Keyword) -> (r: bool)
        requires
            self.valid(toks@),
        ensures
            r == (self.pos < self.lim && kw_at(toks@, self.pos as int, k)),
    {
        ipeek(toks, self.pos, self.lim, k)
    }

    /// Whether the keyword `k` starts the `n`-th token tree ahead.
    pub fn ipeekn(&self, toks: &Vec<Token>, n: usize, k: Keyword) -> (r: bool)
        requires
            self.valid(toks@),
            n >= 1,
        ensures
            r == (skip_trees(toks@, self.pos as int, (n - 1) as nat, self.lim as int) matches Some(j)
                && j < self.lim && kw_at(toks@, j, k)),
    {
        ipeekn(toks, self.pos, self.lim, n, k)
    }

    /// Whether the next token is the punctuation `c`.
    pub fn peek_punct(&self, toks: &Vec<Token>, c: char) -> (r: bool)
        requires
            self.valid(toks@),
        ensures
            r == (self.pos < self.lim && punct_at(toks@, self.pos as int, c)),
    {
        self.pos < self.lim && peek_punct(toks, self.pos, c)
    }

    /// Consumes the keyword `k`; on failure the cursor does not move.
    pub fn keyword(&mut self, toks: &Vec<Token>, k: Keyword) -> (r: Result<usize, ParseError>)
        requires
            old(self).valid(toks@),
        ensures
            r is Ok <==> (old(self).pos < old(self).lim && kw_at(toks@, old(self).pos as int, k)),
            r matches Ok(i) ==> i == old(self).pos && final(self).pos == old(self).pos + 1
                && final(self).lim == old(self).lim,
            r is Err ==> *final(self) == *old(self),
            final(self).valid(toks@),
    {
        match keyword(toks, self.pos, self.lim, k) {
            Ok(p) => {
                let i = self.pos;
                self.pos = p;
                Ok(i)
            },
            Err(e) => Err(e),
        }
    }

    /// Consumes the punctuation `c`; on failure the cursor does not move.
    pub fn punct(&mut self, toks: &Vec<Token>, c: char) -> (r: Result<usize, ParseError>)
        requires
            old(self).valid(toks@),
        ensures
            r is Ok <==> (old(self).pos < old(self).lim && punct_at(toks@, old(self).pos as int, c)),
            r matches Ok(i) ==> i == old(self).pos && final(self).pos == old(self).pos + 1
                && final(self).lim == old(self).lim,
            r is Err ==> *final(self) == *old(self),
            final(self).valid(toks@),
    {
        match expect_punct(toks, self.pos, self.lim, c) {
            Ok(p) => {
                let i = self.pos;
                self.pos = p;
                Ok(i)
            },
            Err(e) => Err(e),
        }
    }
}

} // verus!
