use vstd::prelude::*;
use crate::punctuated::{lemma_tiles_item, lemma_tiles_sep, tiles, Punctuated};
use crate::ty::{
    bound_span, parse_bound, parse_lifetime, parse_type, Bound, Lifetime, Type, advances,
};
use crate::token::{
    joint_at, expect_ident, ident_at, ipeek, keyword, kw_at, peek_ident, peek_punct, punct_at, ErrorKind,
    Expected, Keyword, ParseError, Rule, Span, Token,
};

verus! {

/// `T extends A + B = D`
#[derive(Debug)]
pub struct TypeParam {
    pub span: Span,
    pub ident: usize,
    pub extends_token: Option<usize>,
    pub bounds: Punctuated<Bound>,
    pub eq_token: Option<usize>,
    pub default: Option<Type>,
}

/// `'a extends 'b + 'c`
#[derive(Debug)]
pub struct LifetimeParam {
    pub span: Span,
    pub lifetime: Lifetime,
    pub extends_token: Option<usize>,
    pub bounds: Punctuated<Lifetime>,
}

/// `const N: T`
#[derive(Debug)]
pub struct ConstParam {
    pub span: Span,
    pub const_token: usize,
    pub ident: usize,
    pub colon_token: usize,
    pub ty: Type,
}

#[derive(Debug)]
pub enum GenericsParam {
    Type(TypeParam),
    Lifetime(LifetimeParam),
    Const(ConstParam),
}

impl GenericsParam {
    pub open spec fn span(&self) -> Span {
        match self {
            GenericsParam::Type(p) => p.span,
            GenericsParam::Lifetime(p) => p.span,
            GenericsParam::Const(p) => p.span,
        }
    }
}

pub open spec fn param_span() -> spec_fn(GenericsParam) -> Span {
    |p: GenericsParam| p.span()
}

pub open spec fn lifetime_span() -> spec_fn(Lifetime) -> Span {
    |l: Lifetime| l.span()
}

/// `<P, Q, R>`
#[derive(Debug)]
pub struct Generics {
    pub lt_token: usize,
    pub params: Punctuated<GenericsParam>,
    pub gt_token: usize,
}

impl Generics {
    pub open spec fn span(&self) -> Span {
        Span { lo: self.lt_token, hi: (self.gt_token + 1) as usize }
    }
}

impl TypeParam {
    /// A name; `extends` if written; bounds separated by `+` up to the `=` or
    /// the end; and `=` with the default type if present.
    pub open spec fn shaped(&self, t: Seq<Token>) -> bool {
        let b_lo = match self.extends_token {
            Some(k) => k + 1,
            None => self.ident + 1,
        };
        let b_hi = match self.eq_token {
            Some(q) => q as int,
            None => self.span.hi as int,
        };
        &&& self.ident == self.span.lo && ident_at(t, self.ident as int)
        &&& (self.extends_token matches Some(k) ==> k == self.ident + 1 && kw_at(t, k as int, Keyword::Extends))
        &&& tiles(t, self.bounds.items@, self.bounds.puncts@, b_lo, b_hi, bound_span(), '+')
        &&& (self.eq_token is Some <==> self.default is Some)
        &&& (self.default matches Some(d) ==> d.span.hi == self.span.hi && self.eq_token == Some(
            (d.span.lo - 1) as usize,
        ) && punct_at(t, d.span.lo - 1, '=') && d.shaped(t))
        &&& forall|i: int| 0 <= i < self.bounds.items@.len() ==> (#[trigger] self.bounds.items@[i]).shaped(t)
    }
}

impl LifetimeParam {
    /// A lifetime, then `extends` and lifetimes separated by `+` if written.
    pub open spec fn shaped(&self, t: Seq<Token>) -> bool {
        &&& self.lifetime.quote == self.span.lo && self.lifetime.ident == self.lifetime.quote + 1
        &&& joint_at(t, self.lifetime.quote as int, '\'') && ident_at(t, self.lifetime.ident as int)
        &&& match self.extends_token {
            Some(k) => k == self.lifetime.quote + 2 && kw_at(t, k as int, Keyword::Extends) && tiles(
                t,
                self.bounds.items@,
                self.bounds.puncts@,
                k + 1,
                self.span.hi as int,
                lifetime_span(),
                '+',
            ) && forall|i: int| 0 <= i < self.bounds.items@.len() ==> (#[trigger] self.bounds.items@[i]).shaped(t),
            None => self.bounds.items@.len() == 0 && self.span.hi == self.lifetime.quote + 2,
        }
    }
}

impl ConstParam {
    /// `const`, a name, `:` and a type.
    pub open spec fn shaped(&self, t: Seq<Token>) -> bool {
        &&& self.const_token == self.span.lo && kw_at(t, self.const_token as int, Keyword::Const)
        &&& self.ident == self.const_token + 1 && ident_at(t, self.ident as int)
        &&& self.colon_token == self.const_token + 2 && punct_at(t, self.colon_token as int, ':')
        &&& self.ty.span.is(self.const_token + 3, self.span.hi as int) && self.ty.shaped(t)
    }
}

impl GenericsParam {
    pub open spec fn shaped(&self, t: Seq<Token>) -> bool {
        match self {
            GenericsParam::Type(p) => p.shaped(t),
            GenericsParam::Lifetime(p) => p.shaped(t),
            GenericsParam::Const(p) => p.shaped(t),
        }
    }
}

impl Generics {
    /// `<`, parameters separated by `,`, `>`; each parameter follows its rule.
    pub open spec fn shaped(&self, t: Seq<Token>) -> bool {
        &&& punct_at(t, self.lt_token as int, '<') && punct_at(t, self.gt_token as int, '>')
        &&& self.lt_token < self.gt_token
        &&& tiles(t, self.params.items@, self.params.puncts@, self.lt_token + 1, self.gt_token as int, param_span(), ',')
        &&& forall|i: int| 0 <= i < self.params.items@.len() ==> (#[trigger] self.params.items@[i]).shaped(t)
    }
}

/// Where a list of bounds stops: before `,`, `>` or `=`.
pub open spec fn bound_list_stop(t: Seq<Token>, p: int) -> bool {
    punct_at(t, p, ',') || punct_at(t, p, '>') || punct_at(t, p, '=')
}

fn at_bound_stop(toks: &Vec<Token>, p: usize) -> (r: bool)
    ensures
        r == bound_list_stop(toks@, p as int),
{
    peek_punct(toks, p, ',') || peek_punct(toks, p, '>') || peek_punct(toks, p, '=')
}

/// Bounds separated by `+`, from `pos` up to the first `,`, `>` or `=`.
pub fn parse_type_bounds(toks: &Vec<Token>, pos: usize, lim: usize) -> (r: Result<(Punctuated<Bound>, usize), ParseError>)
    requires
        pos <= lim <= toks@.len(),
    ensures
        crate::grammar::agrees(r, crate::grammar::g_type_bounds(toks@, pos as int, lim as int)),
        r matches Ok((l, end)) ==> pos <= end < lim && bound_list_stop(toks@, end as int)
            && tiles(toks@, l.items@, l.puncts@, pos as int, end as int, bound_span(), '+')
            && forall|i: int| 0 <= i < l.items@.len() ==> (#[trigger] l.items@[i]).shaped(toks@),
        r matches Ok((l, end)) ==> (bound_list_stop(toks@, pos as int) <==> l.items@.len() == 0),
{
    let mut l: Punctuated<Bound> = Punctuated::new();
    let mut p = pos;
    while !(p < lim && at_bound_stop(toks, p))
        invariant_except_break
            l.puncts@.len() == l.items@.len(),
        invariant
            pos <= p <= lim <= toks@.len(),
            tiles(toks@, l.items@, l.puncts@, pos as int, p as int, bound_span(), '+'),
            forall|i: int| 0 <= i < l.items@.len() ==> (#[trigger] l.items@[i]).shaped(toks@),
            p > pos <==> l.items@.len() > 0,
            crate::grammar::g_type_bounds(toks@, p as int, lim as int) == crate::grammar::g_type_bounds(toks@, pos as int, lim as int),
            l.items@.len() > 0 ==> !(pos < lim && bound_list_stop(toks@, pos as int)),
        ensures
            p < lim && bound_list_stop(toks@, p as int),
        decreases lim - p,
    {
        let (b, e) = parse_bound(toks, p, lim)?;
        proof {
            lemma_tiles_item(toks@, l.items@, l.puncts@, pos as int, p as int, bound_span(), '+', b);
        }
        l.items.push(b);
        p = e;
        if p < lim && at_bound_stop(toks, p) {
            break;
        }
        if !(p < lim && peek_punct(toks, p, '+')) {
            return Err(ParseError { pos: p, kind: ErrorKind::Expected(Expected::Punct('+')) });
        }
        proof {
            lemma_tiles_sep(toks@, l.items@, l.puncts@, pos as int, p as int, bound_span(), '+', p);
        }
        l.puncts.push(p);
        p = p + 1;
    }
    Ok((l, p))
}

/// A type parameter: a name, `extends` and its bounds if present, and `=` with
/// a default type if present.
pub fn parse_type_param(toks: &Vec<Token>, pos: usize, lim: usize) -> (r: Result<(TypeParam, usize), ParseError>)
    requires
        lim <= toks@.len(),
    ensures
        crate::grammar::agrees(r, crate::grammar::g_type_param(toks@, pos as int, lim as int)),
        advances(r, pos as int, lim as int),
        r matches Ok((x, end)) ==> x.span.is(pos as int, end as int) && x.ident == pos
            && ident_at(toks@, pos as int) && x.shaped(toks@),
        r matches Ok((x, end)) ==> (x.extends_token matches Some(k) ==> k == pos + 1 && kw_at(
            toks@,
            k as int,
            Keyword::Extends,
        )),
        r matches Ok((x, end)) ==> (x.extends_token is Some <==> kw_at(toks@, pos + 1, Keyword::Extends)),
        r matches Ok((x, end)) ==> (x.eq_token is Some <==> x.default is Some),
        r matches Ok((x, end)) ==> (x.default matches Some(d) ==> d.span.hi == end && x.eq_token
            == Some((d.span.lo - 1) as usize) && punct_at(toks@, d.span.lo - 1, '=')),
        r matches Ok((x, end)) ==> (x.default is None ==> end < lim && (punct_at(toks@, end as int, ',')
            || punct_at(toks@, end as int, '>'))),
        r matches Ok((x, end)) ==> tiles(
            toks@,
            x.bounds.items@,
            x.bounds.puncts@,
            match x.extends_token {
                Some(k) => k + 1,
                None => pos + 1,
            },
            match x.eq_token {
                Some(q) => q as int,
                None => end as int,
            },
            bound_span(),
            '+',
        ),
{
    let mut p = expect_ident(toks, pos, lim)?;
    let mut extends_token = None;
    if ipeek(toks, p, lim, Keyword::Extends) {
        extends_token = Some(p);
        p = p + 1;
    }
    let (bounds, e) = parse_type_bounds(toks, p, lim)?;
    p = e;
    let mut eq_token = None;
    let mut default = None;
    if peek_punct(toks, p, '=') {
        let (ty, e) = parse_type(toks, p + 1, lim)?;
        if !(e < lim && (peek_punct(toks, e, ',') || peek_punct(toks, e, '>'))) {
            return Err(ParseError { pos: e, kind: ErrorKind::Expected(Expected::Punct('>')) });
        }
        eq_token = Some(p);
        default = Some(ty);
        p = e;
    }
    Ok((TypeParam { span: Span { lo: pos, hi: p }, ident: pos, extends_token, bounds, eq_token, default }, p))
}

/// A lifetime parameter, with the lifetimes after `extends` separated by `+`.
pub fn parse_lifetime_param(toks: &Vec<Token>, pos: usize, lim: usize) -> (r: Result<(LifetimeParam, usize), ParseError>)
    requires
        lim <= toks@.len(),
    ensures
        crate::grammar::agrees(r, crate::grammar::g_lifetime_param(toks@, pos as int, lim as int)),
        advances(r, pos as int, lim as int),
        r matches Ok((x, end)) ==> x.span.is(pos as int, end as int) && x.shaped(toks@),
{
    let (lifetime, mut p) = parse_lifetime(toks, pos, lim)?;
    let mut bounds: Punctuated<Lifetime> = Punctuated::new();
    if !ipeek(toks, p, lim, Keyword::Extends) {
        return Ok((LifetimeParam { span: Span { lo: pos, hi: p }, lifetime, extends_token: None, bounds }, p));
    }
    let k = p;
    p = p + 1;
    while !(p < lim && (peek_punct(toks, p, ',') || peek_punct(toks, p, '>')))
        invariant_except_break
            bounds.puncts@.len() == bounds.items@.len(),
        invariant
            k + 1 <= p <= lim <= toks@.len(),
            k == pos + 2,
            crate::grammar::g_lifetime_param(toks@, pos as int, lim as int) == crate::grammar::g_lifetime_bounds(toks@, k + 1, lim as int),
            crate::grammar::g_lifetime_bounds(toks@, p as int, lim as int) == crate::grammar::g_lifetime_bounds(toks@, k + 1, lim as int),
            tiles(toks@, bounds.items@, bounds.puncts@, k + 1, p as int, lifetime_span(), '+'),
            forall|i: int| 0 <= i < bounds.items@.len() ==> (#[trigger] bounds.items@[i]).shaped(toks@),
        ensures
            p < lim && (punct_at(toks@, p as int, ',') || punct_at(toks@, p as int, '>')),
        decreases lim - p,
    {
        let (b, e) = parse_lifetime(toks, p, lim)?;
        proof {
            lemma_tiles_item(toks@, bounds.items@, bounds.puncts@, k + 1, p as int, lifetime_span(), '+', b);
        }
        bounds.items.push(b);
        p = e;
        if p < lim && (peek_punct(toks, p, ',') || peek_punct(toks, p, '>')) {
            break;
        }
        if !(p < lim && peek_punct(toks, p, '+')) {
            return Err(ParseError { pos: p, kind: ErrorKind::Expected(Expected::Punct('+')) });
        }
        proof {
            lemma_tiles_sep(toks@, bounds.items@, bounds.puncts@, k + 1, p as int, lifetime_span(), '+', p);
        }
        bounds.puncts.push(p);
        p = p + 1;
    }
    Ok((LifetimeParam { span: Span { lo: pos, hi: p }, lifetime, extends_token: Some(k), bounds }, p))
}

/// `const N: T`
pub fn parse_const_param(toks: &Vec<Token>, pos: usize, lim: usize) -> (r: Result<(ConstParam, usize), ParseError>)
    requires
        lim <= toks@.len(),
    ensures
        crate::grammar::agrees(r, crate::grammar::g_const_param(toks@, pos as int, lim as int)),
        advances(r, pos as int, lim as int),
        r matches Ok((x, end)) ==> x.span.is(pos as int, end as int) && x.shaped(toks@),
{
    let p = keyword(toks, pos, lim, Keyword::Const)?;
    let p = expect_ident(toks, p, lim)?;
    if !(p < lim && peek_punct(toks, p, ':')) {
        return Err(ParseError { pos: p, kind: ErrorKind::Expected(Expected::Punct(':')) });
    }
    let (ty, end) = parse_type(toks, p + 1, lim)?;
    Ok((ConstParam { span: Span { lo: pos, hi: end }, const_token: pos, ident: pos + 1, colon_token: pos + 2, ty }, end))
}

/// One generic parameter, told apart by its first token: a lifetime's quote,
/// the `const` keyword, or else an identifier.
pub fn parse_generics_param(toks: &Vec<Token>, pos: usize, lim: usize) -> (r: Result<(GenericsParam, usize), ParseError>)
    requires
        lim <= toks@.len(),
    ensures
        !(pos < lim && (punct_at(toks@, pos as int, '\'') || kw_at(toks@, pos as int, Keyword::Const) || ident_at(toks@, pos as int))) ==> (r matches Err(e) && e == ParseError { pos, kind: ErrorKind::NoMatch(Rule::GenericsParam) }),
        crate::grammar::agrees(r, crate::grammar::g_generics_param(toks@, pos as int, lim as int)),
        advances(r, pos as int, lim as int),
        r matches Ok((x, end)) ==> x.span().is(pos as int, end as int) && x.shaped(toks@),
        r matches Ok((x, end)) ==> (x is Lifetime <==> punct_at(toks@, pos as int, '\'')),
        r matches Ok((x, end)) ==> (x is Const <==> kw_at(toks@, pos as int, Keyword::Const)),
{
    if pos < lim && peek_punct(toks, pos, '\'') {
        let (x, e) = parse_lifetime_param(toks, pos, lim)?;
        Ok((GenericsParam::Lifetime(x), e))
    } else if ipeek(toks, pos, lim, Keyword::Const) {
        let (x, e) = parse_const_param(toks, pos, lim)?;
        Ok((GenericsParam::Const(x), e))
    } else if pos < lim && peek_ident(toks, pos) {
        let (x, e) = parse_type_param(toks, pos, lim)?;
        Ok((GenericsParam::Type(x), e))
    } else {
        Err(ParseError { pos, kind: ErrorKind::NoMatch(Rule::GenericsParam) })
    }
}

/// `<` then parameters, each followed by `,` unless `>` comes next, then `>`.
pub fn parse_generics(toks: &Vec<Token>, pos: usize, lim: usize) -> (r: Result<(Generics, usize), ParseError>)
    requires
        lim <= toks@.len(),
    ensures
        crate::grammar::agrees(r, crate::grammar::g_generics(toks@, pos as int, lim as int)),
        crate::grammar::generics_run_out(toks@, pos as int, lim as int) ==> (r matches Err(e) && e.pos == lim && e.kind is Expected),
        advances(r, pos as int, lim as int),
        r matches Ok((g, end)) ==> g.span().is(pos as int, end as int) && g.shaped(toks@),
{
    if !(pos < lim && peek_punct(toks, pos, '<')) {
        return Err(ParseError { pos, kind: ErrorKind::Expected(Expected::Punct('<')) });
    }
    let mut params: Punctuated<GenericsParam> = Punctuated::new();
    let mut p = pos + 1;
    while !(p < lim && peek_punct(toks, p, '>'))
        invariant_except_break
            params.puncts@.len() == params.items@.len(),
        invariant
            pos < p <= lim <= toks@.len(),
            tiles(toks@, params.items@, params.puncts@, pos + 1, p as int, param_span(), ','),
            crate::grammar::g_generics_from(toks@, p as int, lim as int) == crate::grammar::g_generics_from(toks@, pos + 1, lim as int),
            crate::grammar::generics_run_out_from(toks@, p as int, lim as int) == crate::grammar::generics_run_out_from(toks@, pos + 1, lim as int),
            forall|i: int| 0 <= i < params.items@.len() ==> (#[trigger] params.items@[i]).shaped(toks@),
        ensures
            p < lim && punct_at(toks@, p as int, '>'),
        decreases lim - p,
    {
        if p >= lim {
            return Err(ParseError { pos: p, kind: ErrorKind::Expected(Expected::Punct('>')) });
        }
        let (x, e) = parse_generics_param(toks, p, lim)?;
        proof {
            lemma_tiles_item(toks@, params.items@, params.puncts@, pos + 1, p as int, param_span(), ',', x);
        }
        params.items.push(x);
        p = e;
        if p < lim && peek_punct(toks, p, '>') {
            break;
        }
        if !(p < lim && peek_punct(toks, p, ',')) {
            return Err(ParseError { pos: p, kind: ErrorKind::Expected(Expected::Punct(',')) });
        }
        proof {
            lemma_tiles_sep(toks@, params.items@, params.puncts@, pos + 1, p as int, param_span(), ',', p);
        }
        params.puncts.push(p);
        p = p + 1;
    }
    Ok((Generics { lt_token: pos, params, gt_token: p }, p + 1))
}

/// Generics if a `<` comes next, else nothing and no token consumed.
pub fn parse_generics_opt(toks: &Vec<Token>, pos: usize, lim: usize) -> (r: Result<(Option<Generics>, usize), ParseError>)
    requires
        pos <= lim <= toks@.len(),
    ensures
        crate::grammar::agrees(r, crate::grammar::g_generics_opt(toks@, pos as int, lim as int)),
        r matches Ok((g, end)) ==> pos <= end <= lim,
        r matches Ok((g, end)) ==> (g is None <==> !(pos < lim && punct_at(toks@, pos as int, '<'))),
        r matches Ok((g, end)) ==> (g is None ==> end == pos),
        r matches Ok((g, end)) ==> (g matches Some(x) ==> x.span().is(pos as int, end as int) && x.shaped(toks@)),
{
    if pos < lim && peek_punct(toks, pos, '<') {
        let (g, e) = parse_generics(toks, pos, lim)?;
        Ok((Some(g), e))
    } else {
        Ok((None, pos))
    }
}

} // verus!
