use vstd::prelude::*;
use crate::expr::{group_at, parse_expr, Expr, ExprParen};
use crate::item::{parse_item, DeclarationKeyword, Item};
use crate::punctuated::{chain, lemma_chain_push};
use crate::ty::{parse_pat, Pat};
use crate::token::{
    expect_group, ident_at, ipeek, kw_at, opt_punct, peek_ident, peek_punct, punct_at, Delimiter,
    ErrorKind, Expected, Keyword, ParseError, Rule, Span, Token,
};

verus! {

/// A statement, with the `;` that ended it if there was one.
#[derive(Debug)]
pub struct Stmt {
    pub span: Span,
    pub stmt: StmtValue,
    pub punct: Option<usize>,
}

impl Stmt {
    pub open spec fn span(&self) -> Span {
        self.span
    }

    /// Where the value ends: at the `;` if there is one, else with the
    /// statement.
    pub open spec fn value_hi(&self) -> int {
        match self.punct {
            Some(p) => p as int,
            None => self.span.hi as int,
        }
    }

    /// The value follows its rule over `span.lo..value_hi()`, and the
    /// optional `;` ends the statement.
    pub open spec fn shaped(&self, t: Seq<Token>) -> bool
        decreases self,
    {
        &&& self.span.lo < self.value_hi()
        &&& self.stmt.span_is(t, self.span.lo as int, self.value_hi())
        &&& opt_punct(t, self.punct, self.value_hi(), self.span.hi as int, ';')
    }
}

pub open spec fn stmt_span() -> spec_fn(Stmt) -> Span {
    |s: Stmt| s.span
}

#[derive(Debug)]
pub enum StmtValue {
    Block(Block),
    If(StmtIf),
    Switch(StmtSwitch),
    For(StmtFor),
    While(StmtWhile),
    DoWhile(StmtDoWhile),
    Item(Box<Item>),
    Expr(Expr),
}

/// `{ stmts }`
#[derive(Debug)]
pub struct Block {
    pub open: usize,
    pub stmts: Vec<Stmt>,
    pub close: usize,
}

impl Block {
    pub open spec fn span(&self) -> Span {
        Span { lo: self.open, hi: (self.close + 1) as usize }
    }

    pub open spec fn shaped(&self, t: Seq<Token>) -> bool
        decreases self,
    {
        &&& group_at(t, self.open as int, self.close as int, Delimiter::Brace)
        &&& chain(self.stmts@, self.open + 1, self.close as int, stmt_span())
        &&& forall|i: int| 0 <= i < self.stmts@.len() ==> (#[trigger] self.stmts@[i]).shaped(t)
    }
}

/// `else stmt`, run when the condition never held.
#[derive(Debug)]
pub struct ElseBranch {
    pub else_token: usize,
    pub body: Box<Stmt>,
}

/// The optional `else` branch occupies `lo..hi`.
pub open spec fn else_fit(t: Seq<Token>, e: Option<ElseBranch>, lo: int, hi: int) -> bool
    decreases e,
{
    match e {
        Some(b) => b.else_token == lo && kw_at(t, lo, Keyword::Else) && b.body.span.is(lo + 1, hi)
            && b.body.shaped(t),
        None => hi == lo,
    }
}

/// A parenthesized condition: `(` expr `)`.
pub open spec fn paren_shaped(t: Seq<Token>, c: ExprParen) -> bool
    decreases c,
{
    c.span.lo == c.open && c.span.hi == c.close + 1 && group_at(
        t,
        c.open as int,
        c.close as int,
        Delimiter::Parenthesis,
    ) && c.expr.span().is(c.open + 1, c.close as int) && c.expr.shaped(t)
}

/// `if (cond) then_branch else else_branch`
#[derive(Debug)]
pub struct StmtIf {
    pub if_token: usize,
    pub cond: ExprParen,
    pub then_branch: Box<Stmt>,
    pub else_branch: Option<ElseBranch>,
}

/// `case pat:`
#[derive(Debug)]
pub struct CaseDecl {
    pub case_token: usize,
    pub pat: Pat,
    pub colon_token: usize,
}

/// `default:`
#[derive(Clone, Copy, PartialEq, Eq, Debug, Structural)]
pub struct DefaultDecl {
    pub default_token: usize,
    pub colon_token: usize,
}

#[derive(Debug)]
pub enum ArmDecl {
    Case(CaseDecl),
    Default(DefaultDecl),
}

/// One `case` or `default` of a switch, and the statements up to the next.
#[derive(Debug)]
pub struct Arm {
    pub span: Span,
    pub decl: ArmDecl,
    pub stmts: Vec<Stmt>,
}

pub open spec fn arm_span() -> spec_fn(Arm) -> Span {
    |a: Arm| a.span
}

/// `switch expr { arms }`
#[derive(Debug)]
pub struct StmtSwitch {
    pub switch_token: usize,
    pub expr: Expr,
    pub open: usize,
    pub arms: Vec<Arm>,
    pub close: usize,
}

/// `while (cond) body else else_block`
#[derive(Debug)]
pub struct StmtWhile {
    pub while_token: usize,
    pub cond: ExprParen,
    pub body: Box<Stmt>,
    pub else_block: Option<ElseBranch>,
}

/// `do body while (cond) else else_block`
#[derive(Debug)]
pub struct StmtDoWhile {
    pub do_token: usize,
    pub body: Box<Stmt>,
    pub while_token: usize,
    pub cond: ExprParen,
    pub else_block: Option<ElseBranch>,
}

/// `for header body else else_block`
#[derive(Debug)]
pub struct StmtFor {
    pub for_token: usize,
    pub header: ForArgs,
    pub body: Box<Stmt>,
    pub else_block: Option<ElseBranch>,
}

/// `(let pat in iterable)`
#[derive(Debug)]
pub struct ForInHeader {
    pub open: usize,
    pub keyword: DeclarationKeyword,
    pub keyword_token: usize,
    pub pat: Pat,
    pub in_token: usize,
    pub iterable: usize,
    pub close: usize,
}

/// `(init; cond; after)`, each clause optional.
#[derive(Debug)]
pub struct ForHeader {
    pub open: usize,
    pub init: Option<Box<StmtValue>>,
    pub semi_token: usize,
    pub cond: Option<Expr>,
    pub semi_token2: usize,
    pub after: Option<Box<StmtValue>>,
    pub close: usize,
}

#[derive(Debug)]
pub enum ForArgs {
    In(ForInHeader),
    Header(ForHeader),
}

impl ForArgs {
    pub open spec fn span(&self) -> Span {
        match self {
            ForArgs::In(h) => Span { lo: h.open, hi: (h.close + 1) as usize },
            ForArgs::Header(h) => Span { lo: h.open, hi: (h.close + 1) as usize },
        }
    }

    /// The header follows the rule of its form.
    pub open spec fn shaped(&self, t: Seq<Token>) -> bool
        decreases self,
    {
        match self {
            ForArgs::In(h) => for_in_shaped(t, *h),
            ForArgs::Header(h) => for_clauses_shaped(t, *h),
        }
    }
}

impl Arm {
    /// `case pat :` or `default :`, then statements that fill the rest of
    /// the arm.
    pub open spec fn shaped(&self, t: Seq<Token>) -> bool
        decreases self,
    {
        &&& match self.decl {
            ArmDecl::Case(d) => d.case_token == self.span.lo && kw_at(t, self.span.lo as int, Keyword::Case)
                && d.pat.span.is(self.span.lo + 1, d.colon_token as int) && d.pat.shaped(t) && punct_at(t, d.colon_token as int, ':')
                && chain(self.stmts@, d.colon_token + 1, self.span.hi as int, stmt_span()),
            ArmDecl::Default(d) => d.default_token == self.span.lo && kw_at(t, self.span.lo as int, Keyword::Default)
                && d.colon_token == self.span.lo + 1 && punct_at(t, self.span.lo + 1, ':')
                && chain(self.stmts@, self.span.lo + 2, self.span.hi as int, stmt_span()),
        }
        &&& forall|i: int| 0 <= i < self.stmts@.len() ==> (#[trigger] self.stmts@[i]).shaped(t)
    }
}

/// The optional statement value of a three-clause header fills `lo..hi`.
pub open spec fn clause_fit(t: Seq<Token>, c: Option<Box<StmtValue>>, lo: int, hi: int) -> bool
    decreases c,
{
    match c {
        Some(v) => lo < hi && v.span_is(t, lo, hi),
        None => hi == lo,
    }
}

impl StmtValue {
    /// The position of this form in the order the forms are tried.
    pub open spec fn choice(&self) -> int {
        match self {
            StmtValue::Block(_) => 0,
            StmtValue::If(_) => 1,
            StmtValue::Switch(_) => 2,
            StmtValue::For(_) => 3,
            StmtValue::While(_) => 4,
            StmtValue::DoWhile(_) => 5,
            StmtValue::Item(_) => 6,
            StmtValue::Expr(_) => 7,
        }
    }

    /// The value spans `lo..hi` and follows its rule there. The span of a
    /// statement value is that of its one part.
    pub open spec fn span_is(&self, t: Seq<Token>, lo: int, hi: int) -> bool
        decreases self,
    {
        match self {
            StmtValue::Block(b) => b.span().is(lo, hi) && b.shaped(t),
            StmtValue::If(s) => s.if_token == lo && kw_at(t, lo, Keyword::If) && paren_shaped(t, s.cond)
                && s.cond.span.lo == lo + 1 && s.then_branch.span.lo == s.cond.span.hi && s.then_branch.shaped(t)
                && else_fit(
                t,
                s.else_branch,
                s.then_branch.span.hi as int,
                hi,
            ),
            StmtValue::Switch(s) => s.switch_token == lo && kw_at(t, lo, Keyword::Switch)
                && s.expr.span().is(lo + 1, s.open as int) && s.expr.shaped(t) && group_at(
                t,
                s.open as int,
                s.close as int,
                Delimiter::Brace,
            ) && chain(s.arms@, s.open + 1, s.close as int, arm_span()) && hi == s.close + 1
                && forall|i: int| 0 <= i < s.arms@.len() ==> (#[trigger] s.arms@[i]).shaped(t),
            StmtValue::For(s) => s.for_token == lo && kw_at(t, lo, Keyword::For)
                && s.header.span().lo == lo + 1 && s.body.span.lo == s.header.span().hi && s.body.shaped(t)
                && s.header.shaped(t) && else_fit(
                t,
                s.else_block,
                s.body.span.hi as int,
                hi,
            ),
            StmtValue::While(s) => s.while_token == lo && kw_at(t, lo, Keyword::While) && paren_shaped(
                t,
                s.cond,
            ) && s.cond.span.lo == lo + 1 && s.body.span.lo == s.cond.span.hi && s.body.shaped(t) && else_fit(
                t,
                s.else_block,
                s.body.span.hi as int,
                hi,
            ),
            StmtValue::DoWhile(s) => s.do_token == lo && kw_at(t, lo, Keyword::Do) && s.body.span.lo
                == lo + 1 && s.body.shaped(t) && s.while_token == s.body.span.hi && kw_at(
                t,
                s.while_token as int,
                Keyword::While,
            ) && paren_shaped(t, s.cond) && s.cond.span.lo == s.while_token + 1 && else_fit(
                t,
                s.else_block,
                s.cond.span.hi as int,
                hi,
            ),
            StmtValue::Item(i) => i.span().is(lo, hi) && i.shaped(t),
            StmtValue::Expr(e) => e.span().is(lo, hi) && e.shaped(t),
        }
    }
}

/// A statement value and the optional `;` after it.
pub fn parse_stmt(toks: &Vec<Token>, pos: usize, lim: usize) -> (r: Result<(Stmt, usize), ParseError>)
    requires
        lim <= toks@.len(),
    ensures
        crate::grammar::agrees(r, crate::grammar::g_stmt(toks@, pos as int, lim as int)),
        r matches Ok((s, end)) ==> pos < end <= lim && s.span.is(pos as int, end as int),
        r matches Ok((s, end)) ==> s.shaped(toks@),
    decreases lim - pos, 20nat,
{
    let (v, p) = parse_stmt_value(toks, pos, lim)?;
    if p < lim && peek_punct(toks, p, ';') {
        Ok((Stmt { span: Span { lo: pos, hi: p + 1 }, stmt: v, punct: Some(p) }, p + 1))
    } else {
        Ok((Stmt { span: Span { lo: pos, hi: p }, stmt: v, punct: None }, p))
    }
}

/// A statement value: the forms are tried in order (block, `if`, `switch`,
/// `for`, `while`, `do`, item, expression) and the first that parses is kept.
/// A keyword whose form does not parse is read as part of an expression.
pub fn parse_stmt_value(toks: &Vec<Token>, pos: usize, lim: usize) -> (r: Result<(StmtValue, usize), ParseError>)
    requires
        lim <= toks@.len(),
    ensures
        r matches Ok((v, _)) ==> v.choice() == crate::grammar::stmt_choice(toks@, pos as int, lim as int),
        crate::grammar::agrees(r, crate::grammar::g_stmt_value(toks@, pos as int, lim as int)),
        r matches Ok((v, end)) ==> pos < end <= lim && v.span_is(toks@, pos as int, end as int),
        r matches Err(e) ==> (e == ParseError { pos, kind: ErrorKind::NoMatch(Rule::Stmt) }),
    decreases lim - pos, 19nat,
{
    if pos < lim && crate::token::peek_open(toks, pos, Delimiter::Brace) {
        if let Ok((b, e)) = parse_block(toks, pos, lim) {
            return Ok((StmtValue::Block(b), e));
        }
    }
    if ipeek(toks, pos, lim, Keyword::If) {
        if let Ok(x) = parse_if(toks, pos, lim) {
            return Ok(x);
        }
    }
    if ipeek(toks, pos, lim, Keyword::Switch) {
        if let Ok(x) = parse_switch(toks, pos, lim) {
            return Ok(x);
        }
    }
    if ipeek(toks, pos, lim, Keyword::For) {
        if let Ok(x) = parse_for(toks, pos, lim) {
            return Ok(x);
        }
    }
    if ipeek(toks, pos, lim, Keyword::While) {
        if let Ok(x) = parse_while(toks, pos, lim) {
            return Ok(x);
        }
    }
    if ipeek(toks, pos, lim, Keyword::Do) {
        if let Ok(x) = parse_do_while(toks, pos, lim) {
            return Ok(x);
        }
    }
    if let Ok((i, e)) = parse_item(toks, pos, lim) {
        return Ok((StmtValue::Item(Box::new(i)), e));
    }
    if let Ok((x, e)) = parse_expr(toks, pos, lim) {
        return Ok((StmtValue::Expr(x), e));
    }
    Err(ParseError { pos, kind: ErrorKind::NoMatch(Rule::Stmt) })
}

/// `{` statements `}`
pub fn parse_block(toks: &Vec<Token>, pos: usize, lim: usize) -> (r: Result<(Block, usize), ParseError>)
    requires
        lim <= toks@.len(),
    ensures
        crate::grammar::agrees(r, crate::grammar::g_block(toks@, pos as int, lim as int)),
        r matches Ok((b, end)) ==> pos < end <= lim && b.span().is(pos as int, end as int) && b.shaped(toks@),
    decreases lim - pos, 18nat,
{
    let c = expect_group(toks, pos, lim, Delimiter::Brace)?;
    let stmts = parse_stmts(toks, pos + 1, c)?;
    Ok((Block { open: pos, stmts, close: c }, c + 1))
}

/// Statements that fill `lo..lim`.
pub fn parse_stmts(toks: &Vec<Token>, lo: usize, lim: usize) -> (r: Result<Vec<Stmt>, ParseError>)
    requires
        lo <= lim <= toks@.len(),
    ensures
        r is Ok <==> crate::grammar::g_stmts(toks@, lo as int, lim as int),
        r matches Ok(v) ==> chain(v@, lo as int, lim as int, stmt_span()),
        r matches Ok(v) ==> forall|i: int| 0 <= i < v@.len() ==> (#[trigger] v@[i]).shaped(toks@),
    decreases lim - lo, 30nat,
{
    let mut stmts: Vec<Stmt> = Vec::new();
    let mut p = lo;
    while p < lim
        invariant
            lo <= p <= lim <= toks@.len(),
            chain(stmts@, lo as int, p as int, stmt_span()),
            crate::grammar::g_stmts(toks@, p as int, lim as int) == crate::grammar::g_stmts(toks@, lo as int, lim as int),
            forall|i: int| 0 <= i < stmts@.len() ==> (#[trigger] stmts@[i]).shaped(toks@),
        decreases lim - p,
    {
        let (s, e) = parse_stmt(toks, p, lim)?;
        proof {
            lemma_chain_push(stmts@, lo as int, p as int, stmt_span(), s);
        }
        stmts.push(s);
        p = e;
    }
    Ok(stmts)
}

/// `(` expr `)`
pub fn parse_paren_cond(toks: &Vec<Token>, pos: usize, lim: usize) -> (r: Result<(ExprParen, usize), ParseError>)
    requires
        lim <= toks@.len(),
    ensures
        crate::grammar::agrees(r, crate::grammar::g_paren_cond(toks@, pos as int, lim as int)),
        r matches Ok((c, end)) ==> pos < end <= lim && c.span.is(pos as int, end as int) && paren_shaped(toks@, c)
            && c.expr.shaped(toks@),
    decreases lim - pos, 17nat,
{
    let c = expect_group(toks, pos, lim, Delimiter::Parenthesis)?;
    let (inner, q) = parse_expr(toks, pos + 1, c)?;
    if q != c {
        return Err(ParseError { pos: q, kind: ErrorKind::Expected(Expected::Close(Delimiter::Parenthesis)) });
    }
    Ok((ExprParen { span: Span { lo: pos, hi: c + 1 }, open: pos, expr: Box::new(inner), close: c }, c + 1))
}

/// `else stmt` if `else` comes next.
pub fn parse_else(toks: &Vec<Token>, pos: usize, lim: usize) -> (r: Result<(Option<ElseBranch>, usize), ParseError>)
    requires
        lim <= toks@.len(),
        pos <= lim,
    ensures
        crate::grammar::agrees(r, crate::grammar::g_else(toks@, pos as int, lim as int)),
        r matches Ok((e, end)) ==> pos <= end <= lim && else_fit(toks@, e, pos as int, end as int),
        r matches Ok((e, end)) ==> (e is None <==> !(pos < lim && kw_at(toks@, pos as int, Keyword::Else))),
    decreases lim - pos, 17nat,
{
    if ipeek(toks, pos, lim, Keyword::Else) {
        let (body, e) = parse_stmt(toks, pos + 1, lim)?;
        Ok((Some(ElseBranch { else_token: pos, body: Box::new(body) }), e))
    } else {
        Ok((None, pos))
    }
}

pub fn parse_if(toks: &Vec<Token>, pos: usize, lim: usize) -> (r: Result<(StmtValue, usize), ParseError>)
    requires
        lim <= toks@.len(),
    ensures
        crate::grammar::agrees(r, crate::grammar::g_if(toks@, pos as int, lim as int)),
        r matches Ok((v, end)) ==> pos < end <= lim && v is If && v.span_is(toks@, pos as int, end as int),
    decreases lim - pos, 18nat,
{
    if !ipeek(toks, pos, lim, Keyword::If) {
        return Err(ParseError { pos, kind: ErrorKind::Expected(Expected::Keyword(Keyword::If)) });
    }
    let (cond, p) = parse_paren_cond(toks, pos + 1, lim)?;
    let (then_branch, p) = parse_stmt(toks, p, lim)?;
    let (else_branch, e) = parse_else(toks, p, lim)?;
    Ok((StmtValue::If(StmtIf { if_token: pos, cond, then_branch: Box::new(then_branch), else_branch }), e))
}

pub fn parse_while(toks: &Vec<Token>, pos: usize, lim: usize) -> (r: Result<(StmtValue, usize), ParseError>)
    requires
        lim <= toks@.len(),
    ensures
        crate::grammar::agrees(r, crate::grammar::g_while(toks@, pos as int, lim as int)),
        r matches Ok((v, end)) ==> pos < end <= lim && v is While && v.span_is(toks@, pos as int, end as int),
    decreases lim - pos, 18nat,
{
    if !ipeek(toks, pos, lim, Keyword::While) {
        return Err(ParseError { pos, kind: ErrorKind::Expected(Expected::Keyword(Keyword::While)) });
    }
    let (cond, p) = parse_paren_cond(toks, pos + 1, lim)?;
    let (body, p) = parse_stmt(toks, p, lim)?;
    let (else_block, e) = parse_else(toks, p, lim)?;
    Ok((StmtValue::While(StmtWhile { while_token: pos, cond, body: Box::new(body), else_block }), e))
}

pub fn parse_do_while(toks: &Vec<Token>, pos: usize, lim: usize) -> (r: Result<(StmtValue, usize), ParseError>)
    requires
        lim <= toks@.len(),
    ensures
        crate::grammar::agrees(r, crate::grammar::g_do_while(toks@, pos as int, lim as int)),
        r matches Ok((v, end)) ==> pos < end <= lim && v is DoWhile && v.span_is(toks@, pos as int, end as int),
    decreases lim - pos, 18nat,
{
    if !ipeek(toks, pos, lim, Keyword::Do) {
        return Err(ParseError { pos, kind: ErrorKind::Expected(Expected::Keyword(Keyword::Do)) });
    }
    let (body, p) = parse_stmt(toks, pos + 1, lim)?;
    if !ipeek(toks, p, lim, Keyword::While) {
        return Err(ParseError { pos: p, kind: ErrorKind::Expected(Expected::Keyword(Keyword::While)) });
    }
    let (cond, q) = parse_paren_cond(toks, p + 1, lim)?;
    let (else_block, e) = parse_else(toks, q, lim)?;
    Ok((StmtValue::DoWhile(StmtDoWhile { do_token: pos, body: Box::new(body), while_token: p, cond, else_block }), e))
}

/// `let` or `const` at `pos`.
pub fn parse_declaration_keyword(toks: &Vec<Token>, pos: usize, lim: usize) -> (r: Result<DeclarationKeyword, ParseError>)
    requires
        lim <= toks@.len(),
    ensures
        r matches Err(e) ==> (e == ParseError { pos, kind: ErrorKind::Expected(Expected::Keyword(Keyword::Let)) }),
        r is Ok <==> crate::grammar::decl_kw_at(toks@, pos as int, lim as int),
        r matches Ok(k) ==> pos < lim && kw_at(toks@, pos as int, k.keyword()),
        r is Err ==> !(pos < lim && (kw_at(toks@, pos as int, Keyword::Let) || kw_at(toks@, pos as int, Keyword::Const))),
{
    if ipeek(toks, pos, lim, Keyword::Let) {
        Ok(DeclarationKeyword::Let)
    } else if ipeek(toks, pos, lim, Keyword::Const) {
        Ok(DeclarationKeyword::Const)
    } else {
        Err(ParseError { pos, kind: ErrorKind::Expected(Expected::Keyword(Keyword::Let)) })
    }
}

/// The for-in header `(let pat in iterable)` filling the group `open..=close`.
pub open spec fn for_in_shaped(t: Seq<Token>, h: ForInHeader) -> bool {
    &&& group_at(t, h.open as int, h.close as int, Delimiter::Parenthesis)
    &&& h.keyword_token == h.open + 1 && kw_at(t, h.keyword_token as int, h.keyword.keyword())
    &&& h.pat.span.is(h.open + 2, h.in_token as int) && h.pat.shaped(t) && kw_at(t, h.in_token as int, Keyword::In)
    &&& h.iterable == h.in_token + 1 && ident_at(t, h.iterable as int) && h.close == h.iterable + 1
}

/// The three-clause header `(init; cond; after)` filling the group.
pub open spec fn for_clauses_shaped(t: Seq<Token>, h: ForHeader) -> bool
    decreases h,
{
    &&& group_at(t, h.open as int, h.close as int, Delimiter::Parenthesis)
    &&& clause_fit(t, h.init, h.open + 1, h.semi_token as int) && punct_at(t, h.semi_token as int, ';')
    &&& match h.cond {
        Some(c) => c.span().is(h.semi_token + 1, h.semi_token2 as int) && c.shaped(t),
        None => h.semi_token2 == h.semi_token + 1,
    }
    &&& punct_at(t, h.semi_token2 as int, ';')
    &&& clause_fit(t, h.after, h.semi_token2 + 1, h.close as int)
}

/// The for-in form inside the group `pos..=c`.
pub fn parse_for_in(toks: &Vec<Token>, pos: usize, c: usize) -> (r: Result<ForInHeader, ParseError>)
    requires
        c < toks@.len(),
        group_at(toks@, pos as int, c as int, Delimiter::Parenthesis),
    ensures
        r is Ok <==> crate::grammar::g_for_in(toks@, pos as int, c as int),
        r matches Ok(h) ==> h.open == pos && h.close == c && for_in_shaped(toks@, h),
{
    let keyword = parse_declaration_keyword(toks, pos + 1, c)?;
    let (pat, p) = parse_pat(toks, pos + 2, c)?;
    if !ipeek(toks, p, c, Keyword::In) {
        return Err(ParseError { pos: p, kind: ErrorKind::Expected(Expected::Keyword(Keyword::In)) });
    }
    if !(p + 1 < c && peek_ident(toks, p + 1)) {
        return Err(ParseError { pos: p + 1, kind: ErrorKind::Expected(Expected::Ident) });
    }
    if p + 2 != c {
        return Err(ParseError { pos: p + 2, kind: ErrorKind::Expected(Expected::Close(Delimiter::Parenthesis)) });
    }
    Ok(ForInHeader { open: pos, keyword, keyword_token: pos + 1, pat, in_token: p, iterable: p + 1, close: c })
}

/// The three-clause form inside the group `pos..=c`.
pub fn parse_for_clauses(toks: &Vec<Token>, pos: usize, c: usize) -> (r: Result<ForHeader, ParseError>)
    requires
        c < toks@.len(),
        group_at(toks@, pos as int, c as int, Delimiter::Parenthesis),
    ensures
        r is Ok <==> crate::grammar::g_for_clauses(toks@, pos as int, c as int),
        r matches Ok(h) ==> h.open == pos && h.close == c && for_clauses_shaped(toks@, h),
    decreases c - pos, 16nat,
{
    let mut p = pos + 1;
    let mut init = None;
    if !(p < c && peek_punct(toks, p, ';')) {
        let (v, e) = parse_stmt_value(toks, p, c)?;
        init = Some(Box::new(v));
        p = e;
    }
    if !(p < c && peek_punct(toks, p, ';')) {
        return Err(ParseError { pos: p, kind: ErrorKind::Expected(Expected::Punct(';')) });
    }
    let semi_token = p;
    p = p + 1;
    let mut cond = None;
    if !(p < c && peek_punct(toks, p, ';')) {
        let (x, e) = parse_expr(toks, p, c)?;
        cond = Some(x);
        p = e;
    }
    if !(p < c && peek_punct(toks, p, ';')) {
        return Err(ParseError { pos: p, kind: ErrorKind::Expected(Expected::Punct(';')) });
    }
    let semi_token2 = p;
    p = p + 1;
    let mut after = None;
    if p < c {
        let (v, e) = parse_stmt_value(toks, p, c)?;
        if e != c {
            return Err(ParseError { pos: e, kind: ErrorKind::Expected(Expected::Close(Delimiter::Parenthesis)) });
        }
        after = Some(Box::new(v));
    }
    Ok(ForHeader { open: pos, init, semi_token, cond, semi_token2, after, close: c })
}

/// The header of a `for`: the for-in form is tried first, then the
/// three-clause form.
pub fn parse_for_args(toks: &Vec<Token>, pos: usize, lim: usize) -> (r: Result<(ForArgs, usize), ParseError>)
    requires
        lim <= toks@.len(),
    ensures
        r matches Ok((h, _)) ==> (h is In <==> crate::grammar::g_for_in(toks@, pos as int, (r->Ok_0.1 - 1) as int)),
        crate::grammar::agrees(r, crate::grammar::g_for_args(toks@, pos as int, lim as int)),
        r matches Ok((h, end)) ==> pos < end <= lim && h.span().is(pos as int, end as int),
        r matches Ok((h, end)) ==> h.shaped(toks@),
    decreases lim - pos, 17nat,
{
    let c = expect_group(toks, pos, lim, Delimiter::Parenthesis)?;
    if let Ok(h) = parse_for_in(toks, pos, c) {
        return Ok((ForArgs::In(h), c + 1));
    }
    match parse_for_clauses(toks, pos, c) {
        Ok(h) => Ok((ForArgs::Header(h), c + 1)),
        Err(_) => Err(ParseError { pos, kind: ErrorKind::NoMatch(Rule::ForHeader) }),
    }
}

pub fn parse_for(toks: &Vec<Token>, pos: usize, lim: usize) -> (r: Result<(StmtValue, usize), ParseError>)
    requires
        lim <= toks@.len(),
    ensures
        crate::grammar::agrees(r, crate::grammar::g_for(toks@, pos as int, lim as int)),
        r matches Ok((v, end)) ==> pos < end <= lim && v is For && v.span_is(toks@, pos as int, end as int),
    decreases lim - pos, 18nat,
{
    if !ipeek(toks, pos, lim, Keyword::For) {
        return Err(ParseError { pos, kind: ErrorKind::Expected(Expected::Keyword(Keyword::For)) });
    }
    let (header, p) = parse_for_args(toks, pos + 1, lim)?;
    let (body, p) = parse_stmt(toks, p, lim)?;
    let (else_block, e) = parse_else(toks, p, lim)?;
    Ok((StmtValue::For(StmtFor { for_token: pos, header, body: Box::new(body), else_block }), e))
}

/// `case pat :` or `default :`, then statements up to the next `case` or
/// `default` or the end of the switch body.
pub fn parse_arm(toks: &Vec<Token>, pos: usize, lim: usize) -> (r: Result<(Arm, usize), ParseError>)
    requires
        lim <= toks@.len(),
    ensures
        crate::grammar::agrees(r, crate::grammar::g_arm(toks@, pos as int, lim as int)),
        r matches Ok((a, end)) ==> pos < end <= lim && a.span.is(pos as int, end as int),
        r matches Ok((a, end)) ==> a.shaped(toks@),
        r matches Ok((a, end)) ==> end == lim || kw_at(toks@, end as int, Keyword::Case)
            || kw_at(toks@, end as int, Keyword::Default),
    decreases lim - pos, 8nat,
{
    let (decl, p) = if ipeek(toks, pos, lim, Keyword::Case) {
        let (pat, p) = parse_pat(toks, pos + 1, lim)?;
        if !(p < lim && peek_punct(toks, p, ':')) {
            return Err(ParseError { pos: p, kind: ErrorKind::Expected(Expected::Punct(':')) });
        }
        (ArmDecl::Case(CaseDecl { case_token: pos, pat, colon_token: p }), p + 1)
    } else if ipeek(toks, pos, lim, Keyword::Default) {
        if !(pos + 1 < lim && peek_punct(toks, pos + 1, ':')) {
            return Err(ParseError { pos: pos + 1, kind: ErrorKind::Expected(Expected::Punct(':')) });
        }
        (ArmDecl::Default(DefaultDecl { default_token: pos, colon_token: pos + 1 }), pos + 2)
    } else {
        return Err(ParseError { pos, kind: ErrorKind::NoMatch(Rule::ArmDecl) });
    };
    let ghost start = p;
    let mut stmts: Vec<Stmt> = Vec::new();
    let mut p = p;
    while p < lim && !ipeek(toks, p, lim, Keyword::Case) && !ipeek(toks, p, lim, Keyword::Default)
        invariant
            start <= p <= lim <= toks@.len(),
            pos < start,
            chain(stmts@, start as int, p as int, stmt_span()),
            crate::grammar::g_arm(toks@, pos as int, lim as int) == crate::grammar::g_arm_body(toks@, p as int, lim as int),
            forall|i: int| 0 <= i < stmts@.len() ==> (#[trigger] stmts@[i]).shaped(toks@),
        decreases lim - p,
    {
        let (s, e) = parse_stmt(toks, p, lim)?;
        proof {
            lemma_chain_push(stmts@, start as int, p as int, stmt_span(), s);
        }
        stmts.push(s);
        p = e;
    }
    Ok((Arm { span: Span { lo: pos, hi: p }, decl, stmts }, p))
}

pub fn parse_switch(toks: &Vec<Token>, pos: usize, lim: usize) -> (r: Result<(StmtValue, usize), ParseError>)
    requires
        lim <= toks@.len(),
    ensures
        crate::grammar::agrees(r, crate::grammar::g_switch(toks@, pos as int, lim as int)),
        r matches Ok((v, end)) ==> pos < end <= lim && v is Switch && v.span_is(toks@, pos as int, end as int),
    decreases lim - pos, 18nat,
{
    if !ipeek(toks, pos, lim, Keyword::Switch) {
        return Err(ParseError { pos, kind: ErrorKind::Expected(Expected::Keyword(Keyword::Switch)) });
    }
    let (expr, o) = parse_expr(toks, pos + 1, lim)?;
    let c = expect_group(toks, o, lim, Delimiter::Brace)?;
    let mut arms: Vec<Arm> = Vec::new();
    let mut p = o + 1;
    while p < c
        invariant
            pos < o < p <= c < lim <= toks@.len(),
            chain(arms@, o + 1, p as int, arm_span()),
            crate::grammar::g_switch(toks@, pos as int, lim as int) == (if crate::grammar::g_arms(toks@, p as int, c as int) { Some(c + 1) } else { None::<int> }),
            forall|i: int| 0 <= i < arms@.len() ==> (#[trigger] arms@[i]).shaped(toks@),
        decreases c - p,
    {
        let (a, e) = parse_arm(toks, p, c)?;
        proof {
            lemma_chain_push(arms@, o + 1, p as int, arm_span(), a);
        }
        arms.push(a);
        p = e;
    }
    Ok((StmtValue::Switch(StmtSwitch { switch_token: pos, expr, open: o, arms, close: c }), c + 1))
}

} // verus!
