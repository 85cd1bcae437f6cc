use vstd::prelude::*;
use crate::class::{parse_object_ident, parse_object_method, ObjectIdent, ObjectMethod};
use crate::expr::{group_at, parse_expr, Expr};
use crate::punctuated::{lemma_tiles_item, lemma_tiles_sep, tiles, Punctuated};
use crate::token::{expect_group, peek_punct, punct_at, Delimiter, ErrorKind, Expected, ParseError, Span, Token};

verus! {

/// `: expr` after a field name.
#[derive(Debug)]
pub struct FieldInit {
    pub colon_token: usize,
    pub expr: Box<Expr>,
}

/// A field of an object literal: a name, and `: expr` unless the value is
/// the variable of that name.
#[derive(Debug)]
pub struct ObjectField {
    pub ident: ObjectIdent,
    pub init: Option<FieldInit>,
}

impl ObjectField {
    pub open spec fn lo(&self) -> int {
        match self.ident.sharp_token {
            Some(s) => s as int,
            None => self.ident.ident as int,
        }
    }

    pub open spec fn hi(&self) -> int {
        match self.init {
            Some(i) => i.expr.span().hi as int,
            None => self.ident.ident + 1,
        }
    }

    pub open spec fn shaped(&self, t: Seq<Token>) -> bool {
        &&& self.ident.fits(t, self.lo(), self.ident.ident + 1)
        &&& (self.init matches Some(i) ==> i.colon_token == self.ident.ident + 1 && punct_at(
            t,
            i.colon_token as int,
            ':',
        ) && i.expr.span().lo == i.colon_token + 1 && i.expr.shaped(t))
    }
}

/// A member of an object literal: a method or a field.
#[derive(Debug)]
pub enum ObjectStmt {
    ObjectMethod(ObjectMethod),
    Field(ObjectField),
}

/// The position of the first token of a method.
pub open spec fn method_lo(m: ObjectMethod) -> int {
    match m.function_token {
        Some(f) => f as int,
        None => match m.ident.sharp_token {
            Some(s) => s as int,
            None => m.ident.ident as int,
        },
    }
}

impl ObjectStmt {
    pub open spec fn span(&self) -> Span {
        match self {
            ObjectStmt::ObjectMethod(m) => Span { lo: method_lo(*m) as usize, hi: m.body.span().hi },
            ObjectStmt::Field(f) => Span { lo: f.lo() as usize, hi: f.hi() as usize },
        }
    }

    pub open spec fn shaped(&self, t: Seq<Token>) -> bool {
        match self {
            ObjectStmt::ObjectMethod(m) => m.fits(t, method_lo(*m), m.body.span().hi as int),
            ObjectStmt::Field(f) => f.shaped(t),
        }
    }
}

pub open spec fn object_stmt_span() -> spec_fn(ObjectStmt) -> Span {
    |s: ObjectStmt| s.span()
}

/// `{ a: 1, b, m() { .. } }`
#[derive(Debug)]
pub struct ExprObject {
    pub open: usize,
    pub fields: Punctuated<ObjectStmt>,
    pub close: usize,
}

/// A field: a name, then `: expr` if a `:` follows.
pub fn parse_object_field(toks: &Vec<Token>, pos: usize, lim: usize) -> (r: Result<(ObjectField, usize), ParseError>)
    requires
        lim <= toks@.len(),
    ensures
        crate::grammar::agrees(r, crate::grammar::g_object_field(toks@, pos as int, lim as int)),
        r matches Ok((f, end)) ==> pos < end <= lim && f.lo() == pos && f.hi() == end && f.shaped(toks@),
{
    let (ident, p) = parse_object_ident(toks, pos, lim)?;
    if p < lim && peek_punct(toks, p, ':') {
        let (e, end) = parse_expr(toks, p + 1, lim)?;
        return Ok((ObjectField { ident, init: Some(FieldInit { colon_token: p, expr: Box::new(e) }) }, end));
    }
    Ok((ObjectField { ident, init: None }, p))
}

/// A member: tried as a method first, then as a field.
pub fn parse_object_stmt(toks: &Vec<Token>, pos: usize, lim: usize) -> (r: Result<(ObjectStmt, usize), ParseError>)
    requires
        lim <= toks@.len(),
    ensures
        r matches Ok((x, _)) ==> (x is ObjectMethod <==> crate::grammar::object_member_choice(toks@, pos as int, lim as int) == 0),
        crate::grammar::agrees(r, crate::grammar::g_object_stmt(toks@, pos as int, lim as int)),
        r matches Ok((s, end)) ==> pos < end <= lim && s.span().is(pos as int, end as int) && s.shaped(toks@),
{
    if let Ok((m, e)) = parse_object_method(toks, pos, lim) {
        return Ok((ObjectStmt::ObjectMethod(m), e));
    }
    let (f, e) = parse_object_field(toks, pos, lim)?;
    Ok((ObjectStmt::Field(f), e))
}

/// An object literal: a braced list of members separated by `,`, a trailing
/// `,` allowed.
pub fn parse_object(toks: &Vec<Token>, pos: usize, lim: usize) -> (r: Result<(ExprObject, usize), ParseError>)
    requires
        lim <= toks@.len(),
    ensures
        crate::grammar::agrees(r, crate::grammar::g_object(toks@, pos as int, lim as int)),
        r matches Ok((o, end)) ==> pos < end <= lim && o.open == pos && o.close + 1 == end && group_at(
            toks@,
            pos as int,
            o.close as int,
            Delimiter::Brace,
        ) && tiles(toks@, o.fields.items@, o.fields.puncts@, pos + 1, o.close as int, object_stmt_span(), ',')
            && forall|i: int| 0 <= i < o.fields.items@.len() ==> (#[trigger] o.fields.items@[i]).shaped(toks@),
{
    let c = expect_group(toks, pos, lim, Delimiter::Brace)?;
    let mut fields: Punctuated<ObjectStmt> = Punctuated::new();
    let mut p = pos + 1;
    while p < c
        invariant_except_break
            fields.puncts@.len() == fields.items@.len(),
        invariant
            pos < p <= c < lim <= toks@.len(),
            crate::grammar::group_end_of(toks@, pos as int, lim as int, Delimiter::Brace) == Some(c as int),
            crate::grammar::g_object_members(toks@, p as int, c as int) == crate::grammar::g_object_members(toks@, pos + 1, c as int),
            tiles(toks@, fields.items@, fields.puncts@, pos + 1, p as int, object_stmt_span(), ','),
            forall|i: int| 0 <= i < fields.items@.len() ==> (#[trigger] fields.items@[i]).shaped(toks@),
        ensures
            p == c,
        decreases c - p,
    {
        let (x, e) = parse_object_stmt(toks, p, c)?;
        proof {
            lemma_tiles_item(toks@, fields.items@, fields.puncts@, pos + 1, p as int, object_stmt_span(), ',', x);
        }
        fields.items.push(x);
        p = e;
        if p == c {
            break;
        }
        if !peek_punct(toks, p, ',') {
            return Err(ParseError { pos: p, kind: ErrorKind::Expected(Expected::Punct(',')) });
        }
        proof {
            lemma_tiles_sep(toks@, fields.items@, fields.puncts@, pos + 1, p as int, object_stmt_span(), ',', p);
        }
        fields.puncts.push(p);
        p = p + 1;
    }
    Ok((ExprObject { open: pos, fields, close: c }, c + 1))
}

} // verus!
