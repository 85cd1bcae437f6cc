use vstd::prelude::*;
use crate::class::{bounds_fit, parse_class_bounds, ClassBounds};
use crate::expr::{annotation_fit, generics_fit, group_at};
use crate::generics::{parse_generics_opt, Generics};
use crate::item::{parse_fn_args, parse_visibility, FnArgs, Visibility};
use crate::punctuated::{lemma_tiles_item, lemma_tiles_sep, tiles, Punctuated};
use crate::stmt::{parse_block, Block};
use crate::ty::{bound_span, parse_bound, parse_type, parse_type_annotation, Bound, Type, TypeAnnotation};
use crate::token::{
    expect_group, ident_at, ipeek, kw_at, opt_punct, peek_ident, peek_open, peek_punct, punct_at,
    Delimiter, ErrorKind, Expected, Keyword, ParseError, Rule, Span, Token,
};

verus! {

/// `function name<..>(args): T` with either a default body or a `;`.
#[derive(Debug)]
pub struct InterfaceItemFn {
    pub span: Span,
    pub function_token: usize,
    pub ident: usize,
    pub generics: Option<Generics>,
    pub inputs: FnArgs,
    pub output: Option<TypeAnnotation>,
    pub default: Option<Block>,
    pub semicolon_token: Option<usize>,
}

/// `= T` after an associated type.
#[derive(Debug)]
pub struct TypeDefault {
    pub eq_token: usize,
    pub ty: Type,
}

/// `type Name<..> extends A + B = T;` with a default type, a `;`, or both.
#[derive(Debug)]
pub struct InterfaceItemType {
    pub span: Span,
    pub type_token: usize,
    pub ident: usize,
    pub generics: Option<Generics>,
    pub bounds: Option<ClassBounds>,
    pub default: Option<TypeDefault>,
    pub semicolon_token: Option<usize>,
}

#[derive(Debug)]
pub enum InterfaceItem {
    Function(InterfaceItemFn),
    Type(InterfaceItemType),
}

impl InterfaceItem {
    pub open spec fn span(&self) -> Span {
        match self {
            InterfaceItem::Function(f) => f.span,
            InterfaceItem::Type(t) => t.span,
        }
    }
}

pub open spec fn interface_item_span() -> spec_fn(InterfaceItem) -> Span {
    |i: InterfaceItem| i.span()
}

impl InterfaceItemFn {
    pub open spec fn shaped(&self, t: Seq<Token>) -> bool
        decreases self,
    {
        let after = match self.output {
            Some(a) => a.span().hi as int,
            None => self.inputs.span().hi as int,
        };
        let after_body = match self.default {
            Some(b) => b.span().hi as int,
            None => after,
        };
        &&& self.span.lo == self.function_token && kw_at(t, self.function_token as int, Keyword::Function)
        &&& self.ident == self.function_token + 1 && ident_at(t, self.ident as int)
        &&& generics_fit(t, self.generics, self.ident + 1, self.inputs.span().lo as int)
        &&& self.inputs.shaped(t)
        &&& annotation_fit(t, self.output, self.inputs.span().hi as int, after)
        &&& (self.default matches Some(b) ==> b.span().lo == after && b.shaped(t))
        &&& opt_punct(t, self.semicolon_token, after_body, self.span.hi as int, ';')
        &&& (self.default is Some) != (self.semicolon_token is Some)
    }
}

impl InterfaceItemType {
    pub open spec fn shaped(&self, t: Seq<Token>) -> bool {
        let g = match self.generics {
            Some(g) => g.span().hi as int,
            None => self.ident + 1,
        };
        let d = match self.default {
            Some(x) => x.eq_token as int,
            None => match self.semicolon_token {
                Some(s) => s as int,
                None => self.span.hi as int,
            },
        };
        let e = match self.default {
            Some(x) => x.ty.span.hi as int,
            None => d,
        };
        &&& self.span.lo == self.type_token && kw_at(t, self.type_token as int, Keyword::Type)
        &&& self.ident == self.type_token + 1 && ident_at(t, self.ident as int)
        &&& generics_fit(t, self.generics, self.ident + 1, g)
        &&& bounds_fit(t, self.bounds, g, d)
        &&& (self.default matches Some(x) ==> punct_at(t, x.eq_token as int, '=') && x.ty.span.lo == x.eq_token + 1
            && x.ty.shaped(t))
        &&& opt_punct(t, self.semicolon_token, e, self.span.hi as int, ';')
        &&& (self.default is Some || self.semicolon_token is Some)
    }
}

/// `export interface Name<..> extends A + B { items }`
#[derive(Debug)]
pub struct ItemInterface {
    pub vis: Visibility,
    pub interface_token: usize,
    pub ident: usize,
    pub generics: Option<Generics>,
    pub bounds: Option<ClassBounds>,
    pub open: usize,
    pub items: Vec<InterfaceItem>,
    pub close: usize,
}

impl ItemInterface {
    pub open spec fn span(&self) -> Span {
        let lo = match self.vis.export_token {
            Some(e) => e,
            None => self.interface_token,
        };
        Span { lo, hi: (self.close + 1) as usize }
    }

    pub open spec fn shaped(&self, t: Seq<Token>) -> bool
        decreases self,
    {
        let g = match self.generics {
            Some(g) => g.span().hi as int,
            None => self.ident + 1,
        };
        &&& crate::token::opt_kw(t, self.vis.export_token, self.span().lo as int, self.interface_token as int, Keyword::Export)
        &&& kw_at(t, self.interface_token as int, Keyword::Interface)
        &&& self.ident == self.interface_token + 1 && ident_at(t, self.ident as int)
        &&& generics_fit(t, self.generics, self.ident + 1, g)
        &&& bounds_fit(t, self.bounds, g, self.open as int)
        &&& group_at(t, self.open as int, self.close as int, Delimiter::Brace)
        &&& crate::punctuated::chain(self.items@, self.open + 1, self.close as int, interface_item_span())
        &&& forall|i: int| 0 <= i < self.items@.len() ==> match #[trigger] self.items@[i] {
            InterfaceItem::Function(f) => f.shaped(t),
            InterfaceItem::Type(x) => x.shaped(t),
        }
    }
}

/// Where the bounds of an associated type stop: at `;`, at `=`, or where the
/// next interface item starts.
pub open spec fn assoc_bounds_stop(t: Seq<Token>, p: int) -> bool {
    punct_at(t, p, ';') || punct_at(t, p, '=') || kw_at(t, p, Keyword::Function) || kw_at(t, p, Keyword::Type)
}

/// The bounds after `extends` in an associated type, separated by `+`.
pub fn parse_assoc_bounds(toks: &Vec<Token>, pos: usize, lim: usize) -> (r: Result<(Punctuated<Bound>, usize), ParseError>)
    requires
        pos <= lim <= toks@.len(),
    ensures
        crate::grammar::agrees(r, crate::grammar::g_assoc_bounds(toks@, pos as int, lim as int)),
        r matches Ok((l, end)) ==> pos < end < lim && assoc_bounds_stop(toks@, end as int)
            && tiles(toks@, l.items@, l.puncts@, pos as int, end as int, bound_span(), '+')
            && l.items@.len() > 0
            && forall|i: int| 0 <= i < l.items@.len() ==> (#[trigger] l.items@[i]).shaped(toks@),
{
    let mut l: Punctuated<Bound> = Punctuated::new();
    let mut p = pos;
    loop
        invariant
            pos <= p <= lim <= toks@.len(),
            l.puncts@.len() == l.items@.len(),
            crate::grammar::g_assoc_bounds(toks@, p as int, lim as int) == crate::grammar::g_assoc_bounds(toks@, pos as int, lim as int),
            tiles(toks@, l.items@, l.puncts@, pos as int, p as int, bound_span(), '+'),
            forall|i: int| 0 <= i < l.items@.len() ==> (#[trigger] l.items@[i]).shaped(toks@),
        decreases lim - p,
    {
        let (b, e) = parse_bound(toks, p, lim)?;
        proof {
            lemma_tiles_item(toks@, l.items@, l.puncts@, pos as int, p as int, bound_span(), '+', b);
        }
        l.items.push(b);
        p = e;
        if p < lim && (peek_punct(toks, p, ';') || peek_punct(toks, p, '=') || ipeek(toks, p, lim, Keyword::Function)
            || ipeek(toks, p, lim, Keyword::Type)) {
            return Ok((l, p));
        }
        if !(p < lim && peek_punct(toks, p, '+')) {
            return Err(ParseError { pos: p, kind: ErrorKind::Expected(Expected::Punct('+')) });
        }
        proof {
            lemma_tiles_sep(toks@, l.items@, l.puncts@, pos as int, p as int, bound_span(), '+', p);
        }
        l.puncts.push(p);
        p = p + 1;
    }
}

pub fn parse_interface_fn(toks: &Vec<Token>, pos: usize, lim: usize) -> (r: Result<(InterfaceItemFn, usize), ParseError>)
    requires
        lim <= toks@.len(),
    ensures
        crate::grammar::agrees(r, crate::grammar::g_interface_fn(toks@, pos as int, lim as int)),
        r matches Ok((x, end)) ==> pos < end <= lim && x.span.is(pos as int, end as int) && x.shaped(toks@),
    decreases lim - pos, 8nat,
{
    if !ipeek(toks, pos, lim, Keyword::Function) {
        return Err(ParseError { pos, kind: ErrorKind::Expected(Expected::Keyword(Keyword::Function)) });
    }
    if !(pos + 1 < lim && peek_ident(toks, pos + 1)) {
        return Err(ParseError { pos: pos + 1, kind: ErrorKind::Expected(Expected::Ident) });
    }
    let (generics, q) = parse_generics_opt(toks, pos + 2, lim)?;
    let (inputs, q) = parse_fn_args(toks, q, lim)?;
    let mut q = q;
    let mut output = None;
    if q < lim && peek_punct(toks, q, ':') {
        let (a, q2) = parse_type_annotation(toks, q, lim)?;
        output = Some(a);
        q = q2;
    }
    let mut default = None;
    let mut semicolon_token = None;
    if q < lim && peek_open(toks, q, Delimiter::Brace) {
        let (b, e) = parse_block(toks, q, lim)?;
        if e < lim && peek_punct(toks, e, ';') {
            return Err(ParseError { pos: e, kind: ErrorKind::Conflict });
        }
        default = Some(b);
        q = e;
    } else if q < lim && peek_punct(toks, q, ';') {
        semicolon_token = Some(q);
        q = q + 1;
    } else {
        return Err(ParseError { pos: q, kind: ErrorKind::Conflict });
    }
    let x = InterfaceItemFn { span: Span { lo: pos, hi: q }, function_token: pos, ident: pos + 1, generics, inputs, output, default, semicolon_token };
    Ok((x, q))
}

pub fn parse_interface_type(toks: &Vec<Token>, pos: usize, lim: usize) -> (r: Result<(InterfaceItemType, usize), ParseError>)
    requires
        lim <= toks@.len(),
    ensures
        crate::grammar::agrees(r, crate::grammar::g_interface_type(toks@, pos as int, lim as int)),
        r matches Ok((x, end)) ==> pos < end <= lim && x.span.is(pos as int, end as int) && x.shaped(toks@),
{
    if !ipeek(toks, pos, lim, Keyword::Type) {
        return Err(ParseError { pos, kind: ErrorKind::Expected(Expected::Keyword(Keyword::Type)) });
    }
    if !(pos + 1 < lim && peek_ident(toks, pos + 1)) {
        return Err(ParseError { pos: pos + 1, kind: ErrorKind::Expected(Expected::Ident) });
    }
    let (generics, g) = parse_generics_opt(toks, pos + 2, lim)?;
    let mut p = g;
    let mut bounds = None;
    if ipeek(toks, p, lim, Keyword::Extends) {
        let (l, e) = parse_assoc_bounds(toks, p + 1, lim)?;
        bounds = Some(ClassBounds { extends_token: p, bounds: l });
        p = e;
    }
    let mut default = None;
    if p < lim && peek_punct(toks, p, '=') {
        let (ty, e) = parse_type(toks, p + 1, lim)?;
        default = Some(TypeDefault { eq_token: p, ty });
        p = e;
    }
    let mut semicolon_token = None;
    if p < lim && peek_punct(toks, p, ';') {
        semicolon_token = Some(p);
        p = p + 1;
    }
    if default.is_none() && semicolon_token.is_none() {
        return Err(ParseError { pos: p, kind: ErrorKind::Conflict });
    }
    let x = InterfaceItemType { span: Span { lo: pos, hi: p }, type_token: pos, ident: pos + 1, generics, bounds, default, semicolon_token };
    Ok((x, p))
}

/// A function signature or an associated type, told by its first keyword.
pub fn parse_interface_item(toks: &Vec<Token>, pos: usize, lim: usize) -> (r: Result<(InterfaceItem, usize), ParseError>)
    requires
        lim <= toks@.len(),
    ensures
        !(pos < lim && (kw_at(toks@, pos as int, Keyword::Function) || kw_at(toks@, pos as int, Keyword::Type))) ==> (r matches Err(e) && e == ParseError { pos, kind: ErrorKind::NoMatch(Rule::InterfaceItem) }),
        crate::grammar::agrees(r, crate::grammar::g_interface_item(toks@, pos as int, lim as int)),
        r matches Ok((x, end)) ==> pos < end <= lim && x.span().is(pos as int, end as int) && match x {
            InterfaceItem::Function(f) => f.shaped(toks@),
            InterfaceItem::Type(y) => y.shaped(toks@),
        },
    decreases lim - pos, 9nat,
{
    if ipeek(toks, pos, lim, Keyword::Function) {
        let (x, e) = parse_interface_fn(toks, pos, lim)?;
        Ok((InterfaceItem::Function(x), e))
    } else if ipeek(toks, pos, lim, Keyword::Type) {
        let (x, e) = parse_interface_type(toks, pos, lim)?;
        Ok((InterfaceItem::Type(x), e))
    } else {
        Err(ParseError { pos, kind: ErrorKind::NoMatch(Rule::InterfaceItem) })
    }
}

/// `export interface Name<..> extends A + B { items }`
pub fn parse_interface(toks: &Vec<Token>, pos: usize, lim: usize) -> (r: Result<(ItemInterface, usize), ParseError>)
    requires
        lim <= toks@.len(),
    ensures
        crate::grammar::agrees(r, crate::grammar::g_interface(toks@, pos as int, lim as int)),
        r matches Ok((x, end)) ==> pos < end <= lim && x.span().is(pos as int, end as int) && x.shaped(toks@),
    decreases lim - pos, 16nat,
{
    if pos > lim {
        return Err(ParseError { pos, kind: ErrorKind::Expected(Expected::Keyword(Keyword::Interface)) });
    }
    let (vis, p) = parse_visibility(toks, pos, lim);
    if !ipeek(toks, p, lim, Keyword::Interface) {
        return Err(ParseError { pos: p, kind: ErrorKind::Expected(Expected::Keyword(Keyword::Interface)) });
    }
    if !(p + 1 < lim && peek_ident(toks, p + 1)) {
        return Err(ParseError { pos: p + 1, kind: ErrorKind::Expected(Expected::Ident) });
    }
    let (generics, q) = parse_generics_opt(toks, p + 2, lim)?;
    let (bounds, o) = parse_class_bounds(toks, q, lim)?;
    let c = expect_group(toks, o, lim, Delimiter::Brace)?;
    let mut items: Vec<InterfaceItem> = Vec::new();
    let mut s = o + 1;
    while s < c
        invariant
            pos <= o < s <= c < lim <= toks@.len(),
            crate::grammar::g_interface(toks@, pos as int, lim as int) == (if crate::grammar::g_interface_items(toks@, s as int, c as int) { Some(c + 1) } else { None::<int> }),
            crate::punctuated::chain(items@, o + 1, s as int, interface_item_span()),
            forall|i: int| 0 <= i < items@.len() ==> match #[trigger] items@[i] {
                InterfaceItem::Function(f) => f.shaped(toks@),
                InterfaceItem::Type(x) => x.shaped(toks@),
            },
        decreases c - s,
    {
        let (x, e) = parse_interface_item(toks, s, c)?;
        proof {
            crate::punctuated::lemma_chain_push(items@, o + 1, s as int, interface_item_span(), x);
        }
        items.push(x);
        s = e;
    }
    Ok((ItemInterface { vis, interface_token: p, ident: p + 1, generics, bounds, open: o, items, close: c }, c + 1))
}

} // verus!
