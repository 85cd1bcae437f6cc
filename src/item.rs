use vstd::prelude::*;
use crate::class::{parse_class, ItemClass};
use crate::expr::{annotation_fit, generics_fit, group_at, parse_expr, Expr};
use crate::generics::{parse_generics_opt, Generics};
use crate::interface::{parse_interface, ItemInterface};
use crate::punctuated::{lemma_tiles_item, lemma_tiles_sep, tiles, Punctuated};
use crate::stmt::{parse_block, parse_declaration_keyword, Block};
use crate::ty::{parse_pat, parse_type, parse_type_annotation, Pat, Type, TypeAnnotation};
use crate::token::{
    assign_eq_at, expect_group, ident_at, ipeek, ipeekn, kw_at, opt_kw, peek_assign_eq,
    peek_ident, peek_punct, punct_at, Delimiter, ErrorKind, Expected, Keyword, ParseError, Rule,
    Span, Token,
};

verus! {

/// Whether a top-level item is exported.
#[derive(Clone, Copy, PartialEq, Eq, Debug, Structural)]
pub struct Visibility {
    pub export_token: Option<usize>,
}

/// `export` if it comes next.
pub fn parse_visibility(toks: &Vec<Token>, pos: usize, lim: usize) -> (r: (Visibility, usize))
    requires
        lim <= toks@.len(),
        pos <= lim,
    ensures
        opt_kw(toks@, r.0.export_token, pos as int, r.1 as int, Keyword::Export),
        r.0.export_token is Some <==> (pos < lim && kw_at(toks@, pos as int, Keyword::Export)),
        r.1 <= lim,
{
    if ipeek(toks, pos, lim, Keyword::Export) {
        (Visibility { export_token: Some(pos) }, pos + 1)
    } else {
        (Visibility { export_token: None }, pos)
    }
}

#[derive(Clone, Copy, PartialEq, Eq, Debug, Structural)]
pub enum DeclarationKeyword {
    Let,
    Const,
}

impl DeclarationKeyword {
    pub open spec fn keyword(self) -> Keyword {
        match self {
            DeclarationKeyword::Let => Keyword::Let,
            DeclarationKeyword::Const => Keyword::Const,
        }
    }
}

/// `= expr`
#[derive(Debug)]
pub struct InitVar {
    pub eq_token: usize,
    pub expr: Box<Expr>,
}

/// The optional initializer occupies `lo..hi`.
pub open spec fn init_fit(t: Seq<Token>, i: Option<InitVar>, lo: int, hi: int) -> bool
    decreases i,
{
    match i {
        Some(v) => v.eq_token == lo && assign_eq_at(t, lo) && v.expr.span().is(lo + 1, hi) && v.expr.shaped(t),
        None => hi == lo,
    }
}

/// `= expr` if a lone `=` comes next.
pub fn parse_init_var(toks: &Vec<Token>, pos: usize, lim: usize) -> (r: Result<(Option<InitVar>, usize), ParseError>)
    requires
        lim <= toks@.len(),
        pos <= lim,
    ensures
        crate::grammar::agrees(r, crate::grammar::g_init_var(toks@, pos as int, lim as int)),
        r matches Ok((i, end)) ==> pos <= end <= lim && init_fit(toks@, i, pos as int, end as int),
        r matches Ok((i, end)) ==> (i is None <==> !(pos < lim && assign_eq_at(toks@, pos as int))),
    decreases lim - pos, 15nat,
{
    if peek_assign_eq(toks, pos, lim) {
        let (x, e) = parse_expr(toks, pos + 1, lim)?;
        Ok((Some(InitVar { eq_token: pos, expr: Box::new(x) }), e))
    } else {
        Ok((None, pos))
    }
}

/// `let pat: T = expr`
#[derive(Debug)]
pub struct Local {
    pub let_token: DeclarationKeyword,
    pub keyword_token: usize,
    pub pat: Pat,
    pub ty: Option<TypeAnnotation>,
    pub init: Option<InitVar>,
}

/// A function parameter: a pattern and an optional type.
#[derive(Debug)]
pub struct FnArg {
    pub pat: Pat,
    pub ty: Option<TypeAnnotation>,
}

impl FnArg {
    pub open spec fn span(&self) -> Span {
        match self.ty {
            Some(a) => Span { lo: self.pat.span.lo, hi: a.ty.span.hi },
            None => self.pat.span,
        }
    }
}

pub open spec fn fn_arg_span() -> spec_fn(FnArg) -> Span {
    |a: FnArg| a.span()
}

/// `(a: T, b)`
#[derive(Debug)]
pub struct FnArgs {
    pub open: usize,
    pub args: Punctuated<FnArg>,
    pub close: usize,
}

impl FnArgs {
    pub open spec fn span(&self) -> Span {
        Span { lo: self.open, hi: (self.close + 1) as usize }
    }

    pub open spec fn shaped(&self, t: Seq<Token>) -> bool {
        &&& group_at(t, self.open as int, self.close as int, Delimiter::Parenthesis)
        &&& tiles(t, self.args.items@, self.args.puncts@, self.open + 1, self.close as int, fn_arg_span(), ',')
        &&& forall|i: int| 0 <= i < self.args.items@.len() ==> annotation_fit(
            t,
            (#[trigger] self.args.items@[i]).ty,
            self.args.items@[i].pat.span.hi as int,
            self.args.items@[i].span().hi as int,
        ) && self.args.items@[i].pat.shaped(t)
    }
}

/// `export async function name<..>(args): T { .. }`
#[derive(Debug)]
pub struct ItemFunction {
    pub vis: Visibility,
    pub async_token: Option<usize>,
    pub function_token: usize,
    pub ident: usize,
    pub generics: Option<Generics>,
    pub inputs: FnArgs,
    pub output: Option<TypeAnnotation>,
    pub body: Block,
}

/// `export type Name<..> = T`
#[derive(Debug)]
pub struct ItemTypeAlias {
    pub vis: Visibility,
    pub type_token: usize,
    pub ident: usize,
    pub generics: Option<Generics>,
    pub eq_token: usize,
    pub alias: Type,
}

#[derive(Debug)]
pub enum Item {
    Local(Local),
    Function(ItemFunction),
    Class(ItemClass),
    Interface(ItemInterface),
    TypeAlias(ItemTypeAlias),
}

impl ItemFunction {
    pub open spec fn lo(&self) -> int {
        match self.vis.export_token {
            Some(e) => e as int,
            None => match self.async_token {
                Some(a) => a as int,
                None => self.function_token as int,
            },
        }
    }

    pub open spec fn shaped(&self, t: Seq<Token>) -> bool
        decreases self,
    {
        let a = match self.async_token {
            Some(a) => a as int,
            None => self.function_token as int,
        };
        &&& opt_kw(t, self.vis.export_token, self.lo(), a, Keyword::Export)
        &&& opt_kw(t, self.async_token, a, self.function_token as int, Keyword::Async)
        &&& kw_at(t, self.function_token as int, Keyword::Function)
        &&& self.ident == self.function_token + 1 && ident_at(t, self.ident as int)
        &&& generics_fit(t, self.generics, self.ident + 1, self.inputs.span().lo as int)
        &&& self.inputs.shaped(t)
        &&& annotation_fit(t, self.output, self.inputs.span().hi as int, self.body.span().lo as int)
        &&& self.body.shaped(t)
    }
}

impl ItemTypeAlias {
    pub open spec fn lo(&self) -> int {
        match self.vis.export_token {
            Some(e) => e as int,
            None => self.type_token as int,
        }
    }

    pub open spec fn shaped(&self, t: Seq<Token>) -> bool {
        &&& opt_kw(t, self.vis.export_token, self.lo(), self.type_token as int, Keyword::Export)
        &&& kw_at(t, self.type_token as int, Keyword::Type)
        &&& self.ident == self.type_token + 1 && ident_at(t, self.ident as int)
        &&& generics_fit(t, self.generics, self.ident + 1, self.eq_token as int)
        &&& punct_at(t, self.eq_token as int, '=')
        &&& self.alias.span.lo == self.eq_token + 1 && self.alias.shaped(t)
    }
}

impl Local {
    pub open spec fn hi(&self) -> int {
        match self.init {
            Some(i) => i.expr.span().hi as int,
            None => match self.ty {
                Some(a) => a.span().hi as int,
                None => self.pat.span.hi as int,
            },
        }
    }

    pub open spec fn shaped(&self, t: Seq<Token>) -> bool
        decreases self,
    {
        let after_ty = match self.ty {
            Some(a) => a.span().hi as int,
            None => self.pat.span.hi as int,
        };
        &&& kw_at(t, self.keyword_token as int, self.let_token.keyword())
        &&& self.pat.span.lo == self.keyword_token + 1 && self.pat.shaped(t)
        &&& annotation_fit(t, self.ty, self.pat.span.hi as int, after_ty)
        &&& init_fit(t, self.init, after_ty, self.hi())
    }
}

impl Item {
    pub open spec fn span(&self) -> Span {
        match self {
            Item::Local(x) => Span { lo: x.keyword_token, hi: x.hi() as usize },
            Item::Function(x) => Span { lo: x.lo() as usize, hi: x.body.span().hi },
            Item::Class(x) => x.span(),
            Item::Interface(x) => x.span(),
            Item::TypeAlias(x) => Span { lo: x.lo() as usize, hi: x.alias.span.hi },
        }
    }

    pub open spec fn shaped(&self, t: Seq<Token>) -> bool
        decreases self,
    {
        match self {
            Item::Local(x) => x.shaped(t),
            Item::Function(x) => x.shaped(t),
            Item::Class(x) => x.shaped(t),
            Item::Interface(x) => x.shaped(t),
            Item::TypeAlias(x) => x.shaped(t),
        }
    }
}

/// `(pat: T, ...)`
pub fn parse_fn_args(toks: &Vec<Token>, pos: usize, lim: usize) -> (r: Result<(FnArgs, usize), ParseError>)
    requires
        lim <= toks@.len(),
    ensures
        crate::grammar::agrees(r, crate::grammar::g_fn_args(toks@, pos as int, lim as int)),
        r matches Ok((a, end)) ==> pos < end <= lim && a.span().is(pos as int, end as int) && a.shaped(toks@),
{
    let c = expect_group(toks, pos, lim, Delimiter::Parenthesis)?;
    let mut args: Punctuated<FnArg> = Punctuated::new();
    let mut p = pos + 1;
    while p < c
        invariant_except_break
            args.puncts@.len() == args.items@.len(),
        invariant
            pos < p <= c < lim <= toks@.len(),
            tiles(toks@, args.items@, args.puncts@, pos + 1, p as int, fn_arg_span(), ','),
            crate::grammar::group_end_of(toks@, pos as int, lim as int, Delimiter::Parenthesis) == Some(c as int),
            crate::grammar::g_fn_arg_list(toks@, p as int, c as int) == crate::grammar::g_fn_arg_list(toks@, pos + 1, c as int),
            forall|i: int| 0 <= i < args.items@.len() ==> annotation_fit(
                toks@,
                (#[trigger] args.items@[i]).ty,
                args.items@[i].pat.span.hi as int,
                args.items@[i].span().hi as int,
            ) && args.items@[i].pat.shaped(toks@),
        ensures
            p == c,
        decreases c - p,
    {
        let (pat, mut e) = parse_pat(toks, p, c)?;
        let mut ty = None;
        if e < c && peek_punct(toks, e, ':') {
            let (a, e2) = parse_type_annotation(toks, e, c)?;
            ty = Some(a);
            e = e2;
        }
        let arg = FnArg { pat, ty };
        proof {
            lemma_tiles_item(toks@, args.items@, args.puncts@, pos + 1, p as int, fn_arg_span(), ',', arg);
        }
        args.items.push(arg);
        p = e;
        if p == c {
            break;
        }
        if !peek_punct(toks, p, ',') {
            return Err(ParseError { pos: p, kind: ErrorKind::Expected(Expected::Punct(',')) });
        }
        proof {
            lemma_tiles_sep(toks@, args.items@, args.puncts@, pos + 1, p as int, fn_arg_span(), ',', p);
        }
        args.puncts.push(p);
        p = p + 1;
    }
    Ok((FnArgs { open: pos, args, close: c }, c + 1))
}

/// `let` or `const`, a pattern, an optional type and an optional initializer.
pub fn parse_local(toks: &Vec<Token>, pos: usize, lim: usize) -> (r: Result<(Local, usize), ParseError>)
    requires
        lim <= toks@.len(),
    ensures
        crate::grammar::agrees(r, crate::grammar::g_local(toks@, pos as int, lim as int)),
        r matches Ok((x, end)) ==> pos < end <= lim && x.keyword_token == pos && x.hi() == end && x.shaped(toks@),
    decreases lim - pos, 16nat,
{
    let let_token = parse_declaration_keyword(toks, pos, lim)?;
    let (pat, mut p) = parse_pat(toks, pos + 1, lim)?;
    let mut ty = None;
    if p < lim && peek_punct(toks, p, ':') {
        let (a, e) = parse_type_annotation(toks, p, lim)?;
        ty = Some(a);
        p = e;
    }
    let (init, e) = parse_init_var(toks, p, lim)?;
    Ok((Local { let_token, keyword_token: pos, pat, ty, init }, e))
}

/// `export async function name<..>(args): T { .. }`
pub fn parse_item_function(toks: &Vec<Token>, pos: usize, lim: usize) -> (r: Result<(ItemFunction, usize), ParseError>)
    requires
        lim <= toks@.len(),
    ensures
        crate::grammar::agrees(r, crate::grammar::g_item_function(toks@, pos as int, lim as int)),
        r matches Ok((x, end)) ==> pos < end <= lim && x.lo() == pos && x.body.span().hi == end && x.shaped(toks@),
    decreases lim - pos, 16nat,
{
    if pos > lim {
        return Err(ParseError { pos, kind: ErrorKind::Expected(Expected::Keyword(Keyword::Function)) });
    }
    let (vis, mut p) = parse_visibility(toks, pos, lim);
    let mut async_token = None;
    if ipeek(toks, p, lim, Keyword::Async) {
        async_token = Some(p);
        p = p + 1;
    }
    if !ipeek(toks, p, lim, Keyword::Function) {
        return Err(ParseError { pos: p, kind: ErrorKind::Expected(Expected::Keyword(Keyword::Function)) });
    }
    let function_token = p;
    if !(p + 1 < lim && peek_ident(toks, p + 1)) {
        return Err(ParseError { pos: p + 1, kind: ErrorKind::Expected(Expected::Ident) });
    }
    let (generics, q) = parse_generics_opt(toks, p + 2, lim)?;
    let (inputs, q) = parse_fn_args(toks, q, lim)?;
    let mut q = q;
    let mut output = None;
    if q < lim && peek_punct(toks, q, ':') {
        let (a, q2) = parse_type_annotation(toks, q, lim)?;
        output = Some(a);
        q = q2;
    }
    let (body, e) = parse_block(toks, q, lim)?;
    let x = ItemFunction { vis, async_token, function_token, ident: p + 1, generics, inputs, output, body };
    Ok((x, e))
}

/// `export type Name<..> = T`
pub fn parse_type_alias(toks: &Vec<Token>, pos: usize, lim: usize) -> (r: Result<(ItemTypeAlias, usize), ParseError>)
    requires
        lim <= toks@.len(),
    ensures
        crate::grammar::agrees(r, crate::grammar::g_type_alias(toks@, pos as int, lim as int)),
        r matches Ok((x, end)) ==> pos < end <= lim && x.lo() == pos && x.alias.span.hi == end && x.shaped(toks@),
{
    if pos > lim {
        return Err(ParseError { pos, kind: ErrorKind::Expected(Expected::Keyword(Keyword::Type)) });
    }
    let (vis, p) = parse_visibility(toks, pos, lim);
    if !ipeek(toks, p, lim, Keyword::Type) {
        return Err(ParseError { pos: p, kind: ErrorKind::Expected(Expected::Keyword(Keyword::Type)) });
    }
    if !(p + 1 < lim && peek_ident(toks, p + 1)) {
        return Err(ParseError { pos: p + 1, kind: ErrorKind::Expected(Expected::Ident) });
    }
    let (generics, q) = parse_generics_opt(toks, p + 2, lim)?;
    if !(q < lim && peek_punct(toks, q, '=')) {
        return Err(ParseError { pos: q, kind: ErrorKind::Expected(Expected::Punct('=')) });
    }
    let (alias, e) = parse_type(toks, q + 1, lim)?;
    Ok((ItemTypeAlias { vis, type_token: p, ident: p + 1, generics, eq_token: q, alias }, e))
}

/// Which item the next tokens start, told by the keywords they begin with.
#[derive(PartialEq, Eq, Structural)]
pub enum ItemStart {
    Local,
    Function,
    Class,
    Interface,
    TypeAlias,
    Other,
}

/// One of the keywords that can start an item stands at `pos`.
pub open spec fn item_keyword_at(t: Seq<Token>, pos: int) -> bool {
    kw_at(t, pos, Keyword::Let) || kw_at(t, pos, Keyword::Const) || kw_at(t, pos, Keyword::Function)
        || kw_at(t, pos, Keyword::Async) || kw_at(t, pos, Keyword::Export) || kw_at(t, pos, Keyword::Class)
        || kw_at(t, pos, Keyword::Interface) || kw_at(t, pos, Keyword::Type)
}

/// Looks ahead, without consuming, for the keywords that start each item:
/// `let`/`const`; `function`, `async function`, `export function`,
/// `export async function`; `class`, `export class`; `interface`,
/// `export interface`; `type`, `export type`.
pub fn item_start(toks: &Vec<Token>, pos: usize, lim: usize) -> (r: ItemStart)
    requires
        lim <= toks@.len(),
    ensures
        r == crate::grammar::item_start_of(toks@, pos as int, lim as int),
        r is Local <==> (pos < lim && (kw_at(toks@, pos as int, Keyword::Let) || kw_at(toks@, pos as int, Keyword::Const))),
        r is Class ==> (pos < lim && kw_at(toks@, pos as int, Keyword::Class)) || (pos < lim && kw_at(toks@, pos as int, Keyword::Export)),
        !(pos < lim && item_keyword_at(toks@, pos as int)) ==> r is Other,
{
    if ipeek(toks, pos, lim, Keyword::Let) || ipeek(toks, pos, lim, Keyword::Const) {
        ItemStart::Local
    } else if ipeek(toks, pos, lim, Keyword::Function)
        || (ipeek(toks, pos, lim, Keyword::Async) && ipeekn(toks, pos, lim, 2, Keyword::Function))
        || (ipeek(toks, pos, lim, Keyword::Export) && ipeekn(toks, pos, lim, 2, Keyword::Function))
        || (ipeek(toks, pos, lim, Keyword::Export) && ipeekn(toks, pos, lim, 2, Keyword::Async)
            && ipeekn(toks, pos, lim, 3, Keyword::Function)) {
        ItemStart::Function
    } else if ipeek(toks, pos, lim, Keyword::Class)
        || (ipeek(toks, pos, lim, Keyword::Export) && ipeekn(toks, pos, lim, 2, Keyword::Class)) {
        ItemStart::Class
    } else if ipeek(toks, pos, lim, Keyword::Interface)
        || (ipeek(toks, pos, lim, Keyword::Export) && ipeekn(toks, pos, lim, 2, Keyword::Interface)) {
        ItemStart::Interface
    } else if ipeek(toks, pos, lim, Keyword::Type)
        || (ipeek(toks, pos, lim, Keyword::Export) && ipeekn(toks, pos, lim, 2, Keyword::Type)) {
        ItemStart::TypeAlias
    } else {
        ItemStart::Other
    }
}

/// An item, chosen by `item_start`.
pub fn parse_item(toks: &Vec<Token>, pos: usize, lim: usize) -> (r: Result<(Item, usize), ParseError>)
    requires
        lim <= toks@.len(),
    ensures
        crate::grammar::agrees(r, crate::grammar::g_item(toks@, pos as int, lim as int)),
        r matches Ok((x, end)) ==> pos < end <= lim && x.span().is(pos as int, end as int) && x.shaped(toks@),
        !(pos < lim && item_keyword_at(toks@, pos as int)) ==> r == Err::<(Item, usize), ParseError>(
            ParseError { pos, kind: ErrorKind::NoMatch(Rule::Item) },
        ),
    decreases lim - pos, 17nat,
{
    match item_start(toks, pos, lim) {
        ItemStart::Local => {
            let (x, e) = parse_local(toks, pos, lim)?;
            Ok((Item::Local(x), e))
        },
        ItemStart::Function => {
            let (x, e) = parse_item_function(toks, pos, lim)?;
            Ok((Item::Function(x), e))
        },
        ItemStart::Class => {
            let (x, e) = parse_class(toks, pos, lim)?;
            Ok((Item::Class(x), e))
        },
        ItemStart::Interface => {
            let (x, e) = parse_interface(toks, pos, lim)?;
            Ok((Item::Interface(x), e))
        },
        ItemStart::TypeAlias => {
            let (x, e) = parse_type_alias(toks, pos, lim)?;
            Ok((Item::TypeAlias(x), e))
        },
        ItemStart::Other => Err(ParseError { pos, kind: ErrorKind::NoMatch(Rule::Item) }),
    }
}

} // verus!
