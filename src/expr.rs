use vstd::prelude::*;
use crate::generics::{parse_generics_opt, Generics};
use crate::item::{parse_fn_args, FnArgs};
use crate::punctuated::{lemma_tiles_item, lemma_tiles_sep, tiles, Punctuated};
use crate::stmt::{parse_block, parse_stmt, Block, Stmt};
use crate::ty::{
    parse_angle_args, parse_pat_list, parse_type_annotation, pat_span, AngleArgs, Pat,
    TypeAnnotation,
};
use crate::token::{
    arrow_at, assign_eq_at, binop_len, binop_len_at, closes, expect_group, ident_at, ipeek,
    joint_at, kw_at, literal_at, open_at, peek_arrow, peek_assign_eq, peek_ident, peek_joint,
    peek_literal, peek_open, peek_punct, peek_word, punct_at, word_at, Delimiter, ErrorKind,
    Expected, Keyword, ParseError, Rule, Span, Token,
};

verus! {

/// `left = right`
#[derive(Debug)]
pub struct ExprAssign {
    pub span: Span,
    pub left: Box<Expr>,
    pub eq_token: usize,
    pub right: Box<Expr>,
}

/// `[a, b, c]`
#[derive(Debug)]
pub struct ExprArray {
    pub span: Span,
    pub open: usize,
    pub elems: Punctuated<Expr>,
    pub close: usize,
}

/// `...name`: the elements of the array `name`, spread in place.
#[derive(Clone, Copy, PartialEq, Eq, Debug, Structural)]
pub struct ExprArrayExpand {
    pub dots: usize,
    pub ident: usize,
}

/// `...` followed by a name at `pos`.
pub fn parse_array_expand(toks: &Vec<Token>, pos: usize, lim: usize) -> (r: Result<(ExprArrayExpand, usize), ParseError>)
    requires
        lim <= toks@.len(),
    ensures
        r is Ok <==> (pos < lim && lim - pos > 3 && joint_at(toks@, pos as int, '.') && joint_at(toks@, pos + 1, '.')
            && punct_at(toks@, pos + 2, '.') && ident_at(toks@, pos + 3)),
        r matches Ok((x, end)) ==> x.dots == pos && x.ident == pos + 3 && end == pos + 4,
{
    if pos < lim && lim - pos > 3 && peek_joint(toks, pos, '.') && peek_joint(toks, pos + 1, '.')
        && peek_punct(toks, pos + 2, '.') && peek_ident(toks, pos + 3) {
        Ok((ExprArrayExpand { dots: pos, ident: pos + 3 }, pos + 4))
    } else {
        Err(ParseError { pos, kind: ErrorKind::Expected(Expected::Punct('.')) })
    }
}

/// `await base`
#[derive(Debug)]
pub struct ExprAwait {
    pub span: Span,
    pub await_token: usize,
    pub base: Box<Expr>,
}

/// `left op right`; `op` spans the operator's one or two tokens.
#[derive(Debug)]
pub struct ExprBinary {
    pub span: Span,
    pub left: Box<Expr>,
    pub op: Span,
    pub right: Box<Expr>,
}

/// `base.member`, where the member is a name or a tuple index.
#[derive(Debug)]
pub struct ExprField {
    pub span: Span,
    pub base: Box<Expr>,
    pub dot_token: usize,
    pub member: usize,
}

/// `_`
#[derive(Clone, Copy, PartialEq, Eq, Debug, Structural)]
pub struct ExprInfer {
    pub span: Span,
    pub underscore_token: usize,
}

/// A literal token.
#[derive(Clone, Copy, PartialEq, Eq, Debug, Structural)]
pub struct ExprLit {
    pub span: Span,
    pub lit: usize,
}

/// `::<..>` between a method's name and its arguments.
#[derive(Debug)]
pub struct Turbofish {
    pub colons: usize,
    pub args: AngleArgs,
}

/// `receiver.method::<..>(args)`
#[derive(Debug)]
pub struct ExprMethodCall {
    pub span: Span,
    pub receiver: Box<Expr>,
    pub dot_token: usize,
    pub method: usize,
    pub turbofish: Option<Turbofish>,
    pub open: usize,
    pub args: Punctuated<Expr>,
    pub close: usize,
}

/// `async function <..>(args): T { .. }`
#[derive(Debug)]
pub struct ExprFunction {
    pub span: Span,
    pub async_token: Option<usize>,
    pub function_token: usize,
    pub generics: Option<Generics>,
    pub inputs: FnArgs,
    pub output: Option<TypeAnnotation>,
    pub body: Block,
}

/// The parenthesized patterns of an arrow function.
#[derive(Debug)]
pub struct ArrowFunctionArgs {
    pub open: usize,
    pub inputs: Punctuated<Pat>,
    pub close: usize,
}

/// `(args): T => body`
#[derive(Debug)]
pub struct ExprArrowFunction {
    pub span: Span,
    pub inputs: ArrowFunctionArgs,
    pub output: Option<TypeAnnotation>,
    pub arrow_token: usize,
    pub body: Box<Stmt>,
}

/// `func(args)`
#[derive(Debug)]
pub struct ExprCall {
    pub span: Span,
    pub func: Box<Expr>,
    pub open: usize,
    pub args: Punctuated<Expr>,
    pub close: usize,
}

/// `cond ? then_branch : else_branch`
#[derive(Debug)]
pub struct ExprIf {
    pub span: Span,
    pub cond: Box<Expr>,
    pub question_token: usize,
    pub then_branch: Box<Expr>,
    pub colon_token: usize,
    pub else_branch: Box<Expr>,
}

/// `rust { .. }`: a block of the host language, passed through unread.
#[derive(Clone, Copy, PartialEq, Eq, Debug, Structural)]
pub struct RustCode {
    pub span: Span,
    pub rust_token: usize,
    pub open: usize,
    pub close: usize,
}

/// `(expr)`
#[derive(Debug)]
pub struct ExprParen {
    pub span: Span,
    pub open: usize,
    pub expr: Box<Expr>,
    pub close: usize,
}

/// A name, or a path `a::b`.
#[derive(Clone, Copy, PartialEq, Eq, Debug, Structural)]
pub struct ExprPath {
    pub span: Span,
}

/// `return` with an optional value.
#[derive(Debug)]
pub struct ExprReturn {
    pub span: Span,
    pub return_token: usize,
    pub expr: Option<Box<Expr>>,
}

#[derive(Debug)]
pub enum Expr {
    Assign(ExprAssign),
    Array(ExprArray),
    Await(ExprAwait),
    Binary(ExprBinary),
    Field(ExprField),
    Infer(ExprInfer),
    Lit(ExprLit),
    MethodCall(ExprMethodCall),
    Function(ExprFunction),
    ArrowFunction(ExprArrowFunction),
    Call(ExprCall),
    If(ExprIf),
    Rust(RustCode),
    Paren(ExprParen),
    Path(ExprPath),
    Return(ExprReturn),
}

pub open spec fn expr_span() -> spec_fn(Expr) -> Span {
    |e: Expr| e.span()
}

/// A bracketed group of kind `d` opens at `open` and closes at `close`.
pub open spec fn group_at(t: Seq<Token>, open: int, close: int, d: Delimiter) -> bool {
    open_at(t, open, d) && closes(t, open, close)
}

/// The optional generics occupy `lo..hi`: all of it, or nothing when absent.
pub open spec fn generics_fit(t: Seq<Token>, g: Option<Generics>, lo: int, hi: int) -> bool {
    match g {
        Some(g) => g.span().is(lo, hi) && g.shaped(t),
        None => hi == lo,
    }
}

/// The optional type annotation occupies `lo..hi`, as `generics_fit`.
pub open spec fn annotation_fit(t: Seq<Token>, a: Option<TypeAnnotation>, lo: int, hi: int) -> bool {
    match a {
        Some(a) => a.span().is(lo, hi) && punct_at(t, a.colon_token as int, ':') && a.ty.span.lo == a.colon_token + 1
            && a.ty.shaped(t),
        None => hi == lo,
    }
}

impl Expr {
    /// An operand of a binary operator: no assignment, conditional or binary
    /// expression unless in parentheses.
    pub open spec fn is_operand(&self) -> bool {
        !(self is Assign) && !(self is If) && !(self is Binary)
    }

    /// A field access whose member is a name; a `(` never follows one, as
    /// that makes a method call.
    pub open spec fn is_named_field(&self, t: Seq<Token>) -> bool {
        self matches Expr::Field(f) && ident_at(t, f.member as int)
    }

    pub open spec fn span(&self) -> Span {
        match self {
            Expr::Assign(x) => x.span,
            Expr::Array(x) => x.span,
            Expr::Await(x) => x.span,
            Expr::Binary(x) => x.span,
            Expr::Field(x) => x.span,
            Expr::Infer(x) => x.span,
            Expr::Lit(x) => x.span,
            Expr::MethodCall(x) => x.span,
            Expr::Function(x) => x.span,
            Expr::ArrowFunction(x) => x.span,
            Expr::Call(x) => x.span,
            Expr::If(x) => x.span,
            Expr::Rust(x) => x.span,
            Expr::Paren(x) => x.span,
            Expr::Path(x) => x.span,
            Expr::Return(x) => x.span,
        }
    }

    /// The grammar rule of the outermost node: where its tokens and its
    /// children's spans lie within its own span, and which tokens those are.
    pub open spec fn shaped(&self, t: Seq<Token>) -> bool
        decreases self,
    {
        let lo = self.span().lo as int;
        let hi = self.span().hi as int;
        match self {
            Expr::Assign(x) => x.left.span().lo == lo && x.eq_token == x.left.span().hi
                && assign_eq_at(t, x.eq_token as int) && x.right.span().is(x.eq_token + 1, hi)
                && x.left.shaped(t) && x.right.shaped(t),
            Expr::Array(x) => x.open == lo && hi == x.close + 1 && group_at(
                t,
                lo,
                x.close as int,
                Delimiter::Bracket,
            ) && tiles(t, x.elems.items@, x.elems.puncts@, lo + 1, x.close as int, expr_span(), ',')
                && forall|i: int| 0 <= i < x.elems.items@.len() ==> (#[trigger] x.elems.items@[i]).shaped(t),
            Expr::Await(x) => x.await_token == lo && kw_at(t, lo, Keyword::Await)
                && x.base.span().is(lo + 1, hi) && x.base.shaped(t),
            Expr::Binary(x) => x.left.span().lo == lo && x.op.lo == x.left.span().hi
                && x.op.hi - x.op.lo == binop_len(t, x.op.lo as int, hi) && x.op.hi > x.op.lo
                && x.right.span().is(x.op.hi as int, hi) && x.left.shaped(t) && x.right.shaped(t)
                && x.right.is_operand(),
            Expr::Field(x) => x.base.span().lo == lo && x.dot_token == x.base.span().hi
                && punct_at(t, x.dot_token as int, '.') && x.member == x.dot_token + 1
                && (ident_at(t, x.member as int) || literal_at(t, x.member as int)) && hi == x.member + 1
                && x.base.shaped(t),
            Expr::Infer(x) => x.underscore_token == lo && word_at(t, lo, "_"@) && hi == lo + 1,
            Expr::Lit(x) => x.lit == lo && literal_at(t, lo) && hi == lo + 1,
            Expr::MethodCall(x) => x.receiver.span().lo == lo && x.dot_token == x.receiver.span().hi
                && punct_at(t, x.dot_token as int, '.') && x.method == x.dot_token + 1 && ident_at(
                t,
                x.method as int,
            ) && (match x.turbofish {
                Some(f) => f.colons == x.method + 1 && joint_at(t, f.colons as int, ':') && punct_at(
                    t,
                    f.colons + 1,
                    ':',
                ) && f.args.lt_token == f.colons + 2 && x.open == f.args.gt_token + 1 && punct_at(
                    t,
                    f.args.lt_token as int,
                    '<',
                ) && punct_at(t, f.args.gt_token as int, '>') && tiles(
                    t,
                    f.args.args.items@,
                    f.args.args.puncts@,
                    f.args.lt_token + 1,
                    f.args.gt_token as int,
                    crate::ty::bound_span(),
                    ',',
                ) && forall|i: int|
                    0 <= i < f.args.args.items@.len() ==> (#[trigger] f.args.args.items@[i]).shaped(t),
                None => x.open == x.method + 1,
            }) && group_at(t, x.open as int, x.close as int, Delimiter::Parenthesis) && tiles(
                t,
                x.args.items@,
                x.args.puncts@,
                x.open + 1,
                x.close as int,
                expr_span(),
                ',',
            ) && hi == x.close + 1 && x.receiver.shaped(t) && forall|i: int|
                0 <= i < x.args.items@.len() ==> (#[trigger] x.args.items@[i]).shaped(t),
            Expr::Function(x) => (match x.async_token {
                Some(a) => a == lo && kw_at(t, lo, Keyword::Async) && x.function_token == lo + 1,
                None => x.function_token == lo,
            }) && kw_at(t, x.function_token as int, Keyword::Function) && generics_fit(
                t,
                x.generics,
                x.function_token + 1,
                x.inputs.span().lo as int,
            ) && annotation_fit(t, x.output, x.inputs.span().hi as int, x.body.span().lo as int)
                && x.body.span().hi == hi && x.inputs.shaped(t) && x.body.shaped(t),
            Expr::ArrowFunction(x) => x.inputs.open == lo && group_at(
                t,
                lo,
                x.inputs.close as int,
                Delimiter::Parenthesis,
            ) && tiles(
                t,
                x.inputs.inputs.items@,
                x.inputs.inputs.puncts@,
                lo + 1,
                x.inputs.close as int,
                pat_span(),
                ',',
            ) && annotation_fit(t, x.output, x.inputs.close + 1, x.arrow_token as int) && arrow_at(
                t,
                x.arrow_token as int,
            ) && x.body.span().is(x.arrow_token + 2, hi) && x.body.shaped(t) && forall|i: int|
                0 <= i < x.inputs.inputs.items@.len() ==> (#[trigger] x.inputs.inputs.items@[i]).shaped(t),
            Expr::Call(x) => x.func.span().lo == lo && x.open == x.func.span().hi && group_at(
                t,
                x.open as int,
                x.close as int,
                Delimiter::Parenthesis,
            ) && tiles(t, x.args.items@, x.args.puncts@, x.open + 1, x.close as int, expr_span(), ',')
                && hi == x.close + 1 && x.func.shaped(t) && !x.func.is_named_field(t) && forall|i: int|
                0 <= i < x.args.items@.len() ==> (#[trigger] x.args.items@[i]).shaped(t),
            Expr::If(x) => x.cond.span().lo == lo && x.question_token == x.cond.span().hi && punct_at(
                t,
                x.question_token as int,
                '?',
            ) && x.then_branch.span().lo == x.question_token + 1 && x.colon_token
                == x.then_branch.span().hi && punct_at(t, x.colon_token as int, ':')
                && x.else_branch.span().is(x.colon_token + 1, hi) && x.cond.shaped(t)
                && x.then_branch.shaped(t) && x.else_branch.shaped(t),
            Expr::Rust(x) => x.rust_token == lo && kw_at(t, lo, Keyword::Rust) && x.open == lo + 1
                && group_at(t, x.open as int, x.close as int, Delimiter::Brace) && hi == x.close + 1,
            Expr::Paren(x) => x.open == lo && group_at(t, lo, x.close as int, Delimiter::Parenthesis)
                && x.expr.span().is(lo + 1, x.close as int) && hi == x.close + 1 && x.expr.shaped(t),
            Expr::Path(x) => crate::ty::path_shape(t, lo, hi),
            Expr::Return(x) => x.return_token == lo && kw_at(t, lo, Keyword::Return) && (match x.expr {
                Some(e) => e.span().is(lo + 1, hi) && e.shaped(t),
                None => hi == lo + 1,
            }),
        }
    }
}

/// On success, an expression that spans `pos..end`, within `lim`, and follows
/// its rule there.
pub open spec fn expr_ok(t: Seq<Token>, r: Result<(Expr, usize), ParseError>, pos: int, lim: int) -> bool {
    r matches Ok((e, end)) ==> pos < end <= lim && e.span().is(pos, end as int) && e.shaped(t)
}

/// The expressions separated by `,` that fill `lo..lim`, a trailing `,`
/// allowed.
pub fn parse_expr_list(toks: &Vec<Token>, lo: usize, lim: usize) -> (r: Result<Punctuated<Expr>, ParseError>)
    requires
        lo <= lim <= toks@.len(),
    ensures
        r is Ok <==> crate::grammar::g_expr_list(toks@, lo as int, lim as int),
        r matches Ok(l) ==> tiles(toks@, l.items@, l.puncts@, lo as int, lim as int, expr_span(), ','),
        r matches Ok(l) ==> (lo == lim ==> l.items@.len() == 0),
        r matches Ok(l) ==> forall|i: int| 0 <= i < l.items@.len() ==> (#[trigger] l.items@[i]).shaped(toks@),
    decreases lim - lo, 30nat,
{
    let mut l: Punctuated<Expr> = Punctuated::new();
    let mut p = lo;
    while p < lim
        invariant_except_break
            l.puncts@.len() == l.items@.len(),
        invariant
            lo <= p <= lim <= toks@.len(),
            tiles(toks@, l.items@, l.puncts@, lo as int, p as int, expr_span(), ','),
            p == lo ==> l.items@.len() == 0,
            crate::grammar::g_expr_list(toks@, p as int, lim as int) == crate::grammar::g_expr_list(toks@, lo as int, lim as int),
            forall|i: int| 0 <= i < l.items@.len() ==> (#[trigger] l.items@[i]).shaped(toks@),
        ensures
            p == lim,
        decreases lim - p,
    {
        let (x, e) = parse_expr(toks, p, lim)?;
        proof {
            lemma_tiles_item(toks@, l.items@, l.puncts@, lo as int, p as int, expr_span(), ',', x);
        }
        l.items.push(x);
        p = e;
        if p == lim {
            break;
        }
        if !peek_punct(toks, p, ',') {
            return Err(ParseError { pos: p, kind: ErrorKind::Expected(Expected::Punct(',')) });
        }
        proof {
            lemma_tiles_sep(toks@, l.items@, l.puncts@, lo as int, p as int, expr_span(), ',', p);
        }
        l.puncts.push(p);
        p = p + 1;
    }
    Ok(l)
}

/// An expression. After the operand chain, a lone `=` makes an assignment and
/// a `?` a conditional, both taking as much as they can to the right; so no
/// expression is ever followed by either.
pub fn parse_expr(toks: &Vec<Token>, pos: usize, lim: usize) -> (r: Result<(Expr, usize), ParseError>)
    requires
        lim <= toks@.len(),
    ensures
        crate::grammar::agrees(r, crate::grammar::g_expr(toks@, pos as int, lim as int)),
        expr_ok(toks@, r, pos as int, lim as int),
        r matches Ok((e, end)) ==> !(end < lim && assign_eq_at(toks@, end as int)),
        r matches Ok((e, end)) ==> !(end < lim && punct_at(toks@, end as int, '?')),
    decreases lim - pos, 14nat,
{
    let (lhs, p) = parse_binary(toks, pos, lim)?;
    if peek_assign_eq(toks, p, lim) {
        let (rhs, e) = parse_expr(toks, p + 1, lim)?;
        let span = Span { lo: pos, hi: e };
        return Ok((Expr::Assign(ExprAssign { span, left: Box::new(lhs), eq_token: p, right: Box::new(rhs) }), e));
    }
    if p < lim && peek_punct(toks, p, '?') {
        let (then_branch, q) = parse_expr(toks, p + 1, lim)?;
        if !(q < lim && peek_punct(toks, q, ':')) {
            return Err(ParseError { pos: q, kind: ErrorKind::Expected(Expected::Punct(':')) });
        }
        let (else_branch, e) = parse_expr(toks, q + 1, lim)?;
        let span = Span { lo: pos, hi: e };
        return Ok((
            Expr::If(ExprIf {
                span,
                cond: Box::new(lhs),
                question_token: p,
                then_branch: Box::new(then_branch),
                colon_token: q,
                else_branch: Box::new(else_branch),
            }),
            e,
        ));
    }
    Ok((lhs, p))
}

/// Operands joined by binary operators, grouped from the left.
pub fn parse_binary(toks: &Vec<Token>, pos: usize, lim: usize) -> (r: Result<(Expr, usize), ParseError>)
    requires
        lim <= toks@.len(),
    ensures
        crate::grammar::agrees(r, crate::grammar::g_binary(toks@, pos as int, lim as int)),
        expr_ok(toks@, r, pos as int, lim as int),
        r matches Ok((e, end)) ==> binop_len(toks@, end as int, lim as int) == 0,
    decreases lim - pos, 13nat,
{
    let (mut e, mut p) = parse_unary(toks, pos, lim)?;
    loop
        invariant
            pos < p <= lim <= toks@.len(),
            e.span().is(pos as int, p as int),
            e.shaped(toks@),
            crate::grammar::g_binary(toks@, pos as int, lim as int) == crate::grammar::g_binary_rest(toks@, p as int, lim as int),
        ensures
            binop_len(toks@, p as int, lim as int) == 0,
            crate::grammar::g_binary(toks@, pos as int, lim as int) == crate::grammar::g_binary_rest(toks@, p as int, lim as int),
        decreases lim - p,
    {
        let n = binop_len_at(toks, p, lim);
        if n == 0 {
            break;
        }
        let (right, q) = parse_unary(toks, p + n, lim)?;
        let ghost t = toks@;
        let b = ExprBinary { span: Span { lo: pos, hi: q }, left: Box::new(e), op: Span { lo: p, hi: p + n }, right: Box::new(right) };
        assert(binop_len(t, p as int, q as int) == binop_len(t, p as int, lim as int));
        e = Expr::Binary(b);
        p = q;
    }
    Ok((e, p))
}

/// `await` before an operand, or a postfix expression. A lone `await` is a
/// name.
pub fn parse_unary(toks: &Vec<Token>, pos: usize, lim: usize) -> (r: Result<(Expr, usize), ParseError>)
    requires
        lim <= toks@.len(),
    ensures
        r matches Ok((e, _)) ==> e.is_operand(),
        crate::grammar::agrees(r, crate::grammar::g_unary(toks@, pos as int, lim as int)),
        expr_ok(toks@, r, pos as int, lim as int),
    decreases lim - pos, 12nat,
{
    if ipeek(toks, pos, lim, Keyword::Await) {
        if let Ok((base, e)) = parse_unary(toks, pos + 1, lim) {
            return Ok((Expr::Await(ExprAwait { span: Span { lo: pos, hi: e }, await_token: pos, base: Box::new(base) }), e));
        }
    }
    parse_postfix(toks, pos, lim)
}

/// One field access, method call or call applied to `e`, the expression that
/// spans `pos..p`; `e` itself, ending at `p`, when no such form follows.
pub fn parse_postfix_step(toks: &Vec<Token>, e: Expr, pos: usize, p: usize, lim: usize) -> (r: Result<(Expr, usize), ParseError>)
    requires
        pos < p <= lim <= toks@.len(),
        e.span().is(pos as int, p as int),
        e.shaped(toks@),
        e.is_operand(),
        e.is_named_field(toks@) ==> !(p < lim && open_at(toks@, p as int, Delimiter::Parenthesis)),
    ensures
        r matches Ok((e2, q)) ==> e2.is_operand() && (e2.is_named_field(toks@) ==> !(q < lim && open_at(toks@, q as int, Delimiter::Parenthesis))),
        r is Err ==> crate::grammar::g_postfix_rest(toks@, p as int, lim as int) is None,
        r matches Ok((e2, q)) ==> p <= q <= lim && e2.span().is(pos as int, q as int) && e2.shaped(toks@),
        r matches Ok((e2, q)) ==> (q == p ==> crate::grammar::g_postfix_rest(toks@, p as int, lim as int) == Some(p as int)),
        r matches Ok((e2, q)) ==> (q > p ==> crate::grammar::g_postfix_rest(toks@, p as int, lim as int) == crate::grammar::g_postfix_rest(toks@, q as int, lim as int)),
    decreases lim - p, 10nat,
{
    if p < lim && peek_punct(toks, p, '.') && p + 1 < lim && peek_ident(toks, p + 1) {
        let m = p + 1;
        let turbo = m < lim && lim - m > 3 && peek_joint(toks, m + 1, ':') && peek_punct(toks, m + 2, ':')
            && peek_punct(toks, m + 3, '<');
        if turbo || (m + 1 < lim && peek_open(toks, m + 1, Delimiter::Parenthesis)) {
            let mut turbofish = None;
            let mut o = m + 1;
            if turbo {
                let (args, q) = parse_angle_args(toks, m + 3, lim)?;
                turbofish = Some(Turbofish { colons: m + 1, args });
                o = q;
            }
            let c = match expect_group(toks, o, lim, Delimiter::Parenthesis) {
                Ok(c) => c,
                Err(err) => {
                    assert(crate::grammar::g_call_args(toks@, p as int, o as int, lim as int) is None);
                    return Err(err);
                },
            };
            let args = match parse_expr_list(toks, o + 1, c) {
                Ok(a) => a,
                Err(err) => {
                    assert(crate::grammar::g_call_args(toks@, p as int, o as int, lim as int) is None);
                    return Err(err);
                },
            };
            assert(crate::grammar::g_call_args(toks@, p as int, o as int, lim as int) == Some(c + 1));
            let span = Span { lo: pos, hi: c + 1 };
            let e2 = Expr::MethodCall(ExprMethodCall { span, receiver: Box::new(e), dot_token: p, method: m, turbofish, open: o, args, close: c });
            Ok((e2, c + 1))
        } else {
            let e2 = Expr::Field(ExprField { span: Span { lo: pos, hi: m + 1 }, base: Box::new(e), dot_token: p, member: m });
            Ok((e2, m + 1))
        }
    } else if p < lim && peek_punct(toks, p, '.') && p + 1 < lim && peek_literal(toks, p + 1) {
        let e2 = Expr::Field(ExprField { span: Span { lo: pos, hi: p + 2 }, base: Box::new(e), dot_token: p, member: p + 1 });
        Ok((e2, p + 2))
    } else if p < lim && peek_open(toks, p, Delimiter::Parenthesis) {
        let c = expect_group(toks, p, lim, Delimiter::Parenthesis)?;
        let args = parse_expr_list(toks, p + 1, c)?;
        let e2 = Expr::Call(ExprCall { span: Span { lo: pos, hi: c + 1 }, func: Box::new(e), open: p, args, close: c });
        Ok((e2, c + 1))
    } else {
        Ok((e, p))
    }
}

/// A primary expression followed by any number of field accesses, method
/// calls and calls.
pub fn parse_postfix(toks: &Vec<Token>, pos: usize, lim: usize) -> (r: Result<(Expr, usize), ParseError>)
    requires
        lim <= toks@.len(),
    ensures
        r matches Ok((e, end)) ==> (e.is_named_field(toks@) ==> !(end < lim && open_at(toks@, end as int, Delimiter::Parenthesis))),
        r matches Ok((e, _)) ==> e.is_operand(),
        crate::grammar::agrees(r, crate::grammar::g_postfix(toks@, pos as int, lim as int)),
        expr_ok(toks@, r, pos as int, lim as int),
    decreases lim - pos, 11nat,
{
    let (mut e, mut p) = parse_primary(toks, pos, lim)?;
    loop
        invariant
            pos < p <= lim <= toks@.len(),
            e.span().is(pos as int, p as int),
            e.is_operand(),
            e.is_named_field(toks@) ==> !(p < lim && open_at(toks@, p as int, Delimiter::Parenthesis)),
            e.shaped(toks@),
            crate::grammar::g_postfix(toks@, pos as int, lim as int) == crate::grammar::g_postfix_rest(toks@, p as int, lim as int),
        decreases lim - p,
    {
        let (e2, q) = parse_postfix_step(toks, e, pos, p, lim)?;
        if q == p {
            return Ok((e2, q));
        }
        e = e2;
        p = q;
    }
}

/// The arrow function at `pos`, whose parameter group closes at `c`.
pub fn parse_arrow_function(toks: &Vec<Token>, pos: usize, c: usize, lim: usize) -> (r: Result<(Expr, usize), ParseError>)
    requires
        lim <= toks@.len(),
        c < lim,
        group_at(toks@, pos as int, c as int, Delimiter::Parenthesis),
    ensures
        crate::grammar::agrees(r, crate::grammar::g_arrow(toks@, pos as int, c as int, lim as int)),
        expr_ok(toks@, r, pos as int, lim as int),
        r matches Ok((e, end)) ==> e is ArrowFunction,
    decreases lim - pos, 9nat,
{
    let inputs = parse_pat_list(toks, pos + 1, c)?;
    let mut p = c + 1;
    let mut output = None;
    if p < lim && peek_punct(toks, p, ':') {
        let (a, q) = parse_type_annotation(toks, p, lim)?;
        output = Some(a);
        p = q;
    }
    if !peek_arrow(toks, p, lim) {
        return Err(ParseError { pos: p, kind: ErrorKind::Expected(Expected::Punct('=')) });
    }
    let (body, e) = parse_stmt(toks, p + 2, lim)?;
    let x = ExprArrowFunction {
        span: Span { lo: pos, hi: e },
        inputs: ArrowFunctionArgs { open: pos, inputs, close: c },
        output,
        arrow_token: p,
        body: Box::new(body),
    };
    Ok((Expr::ArrowFunction(x), e))
}

/// `async function <..>(args): T { .. }` at `pos`.
pub fn parse_function_expr(toks: &Vec<Token>, pos: usize, lim: usize) -> (r: Result<(Expr, usize), ParseError>)
    requires
        lim <= toks@.len(),
    ensures
        crate::grammar::agrees(r, crate::grammar::g_function(toks@, pos as int, lim as int)),
        expr_ok(toks@, r, pos as int, lim as int),
        r matches Ok((e, end)) ==> e is Function,
    decreases lim - pos, 9nat,
{
    let mut p = pos;
    let mut async_token = None;
    if ipeek(toks, p, lim, Keyword::Async) {
        async_token = Some(p);
        p = p + 1;
    }
    if !ipeek(toks, p, lim, Keyword::Function) {
        return Err(ParseError { pos: p, kind: ErrorKind::Expected(Expected::Keyword(Keyword::Function)) });
    }
    let function_token = p;
    let (generics, q) = parse_generics_opt(toks, p + 1, lim)?;
    let (inputs, q) = parse_fn_args(toks, q, lim)?;
    let mut q = q;
    let mut output = None;
    if q < lim && peek_punct(toks, q, ':') {
        let (a, q2) = parse_type_annotation(toks, q, lim)?;
        output = Some(a);
        q = q2;
    }
    let (body, e) = parse_block(toks, q, lim)?;
    let x = ExprFunction { span: Span { lo: pos, hi: e }, async_token, function_token, generics, inputs, output, body };
    Ok((Expr::Function(x), e))
}

/// Whether `=>` follows the group that closes at `c`: then the group can only
/// start an arrow function.
pub open spec fn arrow_follows(t: Seq<Token>, c: int, lim: int) -> bool {
    c + 2 < lim && arrow_at(t, c + 1)
}

/// A primary expression. A parenthesized group is tried as an arrow function
/// first, and is one whenever `=>` follows it.
pub fn parse_primary(toks: &Vec<Token>, pos: usize, lim: usize) -> (r: Result<(Expr, usize), ParseError>)
    requires
        lim <= toks@.len(),
    ensures
        r matches Ok((e, _)) ==> !(e is Field),
        r matches Ok((e, _)) ==> e.is_operand(),
        crate::grammar::agrees(r, crate::grammar::g_primary(toks@, pos as int, lim as int)),
        expr_ok(toks@, r, pos as int, lim as int),
        r matches Ok((e, end)) ==> (forall|c: int| #![auto] group_at(toks@, pos as int, c, Delimiter::Parenthesis)
            && arrow_follows(toks@, c, lim as int) ==> e is ArrowFunction),
        pos < lim && (literal_at(toks@, pos as int) || (ident_at(toks@, pos as int) && !kw_at(
            toks@,
            pos as int,
            Keyword::Rust,
        ))) ==> r is Ok,
        literal_at(toks@, pos as int) && pos < lim ==> r matches Ok((Expr::Lit(_), _)),
    decreases lim - pos, 10nat,
{
    if pos < lim && peek_open(toks, pos, Delimiter::Parenthesis) {
        let c = expect_group(toks, pos, lim, Delimiter::Parenthesis)?;
        let arrow = peek_arrow(toks, c + 1, lim);
        if arrow || (c + 1 < lim && peek_punct(toks, c + 1, ':')) {
            match parse_arrow_function(toks, pos, c, lim) {
                Ok(x) => {
                    return Ok(x);
                },
                Err(err) => {
                    if arrow {
                        return Err(err);
                    }
                },
            }
        }
        proof {
            assert forall|c2: int| #![auto] group_at(toks@, pos as int, c2, Delimiter::Parenthesis) implies c2 == c by {
                crate::token::lemma_closes_unique(toks@, pos as int, c as int, c2);
            }
        }
        let (inner, q) = parse_expr(toks, pos + 1, c)?;
        if q != c {
            return Err(ParseError { pos: q, kind: ErrorKind::Expected(Expected::Close(Delimiter::Parenthesis)) });
        }
        let x = ExprParen { span: Span { lo: pos, hi: c + 1 }, open: pos, expr: Box::new(inner), close: c };
        return Ok((Expr::Paren(x), c + 1));
    }
    if pos < lim && peek_open(toks, pos, Delimiter::Bracket) {
        let c = expect_group(toks, pos, lim, Delimiter::Bracket)?;
        let elems = parse_expr_list(toks, pos + 1, c)?;
        let x = ExprArray { span: Span { lo: pos, hi: c + 1 }, open: pos, elems, close: c };
        return Ok((Expr::Array(x), c + 1));
    }
    if pos < lim && peek_literal(toks, pos) {
        return Ok((Expr::Lit(ExprLit { span: Span { lo: pos, hi: pos + 1 }, lit: pos }), pos + 1));
    }
    if pos < lim && peek_word(toks, pos, "_") {
        return Ok((Expr::Infer(ExprInfer { span: Span { lo: pos, hi: pos + 1 }, underscore_token: pos }), pos + 1));
    }
    if ipeek(toks, pos, lim, Keyword::Function) || (ipeek(toks, pos, lim, Keyword::Async) && ipeek(toks, pos + 1, lim, Keyword::Function)) {
        if let Ok(x) = parse_function_expr(toks, pos, lim) {
            return Ok(x);
        }
    }
    if ipeek(toks, pos, lim, Keyword::Rust) && pos + 1 < lim && peek_open(toks, pos + 1, Delimiter::Brace) {
        let c = expect_group(toks, pos + 1, lim, Delimiter::Brace)?;
        let x = RustCode { span: Span { lo: pos, hi: c + 1 }, rust_token: pos, open: pos + 1, close: c };
        return Ok((Expr::Rust(x), c + 1));
    }
    if ipeek(toks, pos, lim, Keyword::Return) {
        let (expr, e) = match parse_expr(toks, pos + 1, lim) {
            Ok((x, e)) => (Some(Box::new(x)), e),
            Err(_) => (None, pos + 1),
        };
        return Ok((Expr::Return(ExprReturn { span: Span { lo: pos, hi: e }, return_token: pos, expr }), e));
    }
    if pos < lim && peek_ident(toks, pos) {
        let e = crate::ty::path_end(toks, pos, lim);
        return Ok((Expr::Path(ExprPath { span: Span { lo: pos, hi: e } }), e));
    }
    Err(ParseError { pos, kind: ErrorKind::NoMatch(Rule::Expr) })
}

} // verus!
