use vstd::prelude::*;
use crate::expr::{annotation_fit, generics_fit, group_at};
use crate::generics::{parse_generics_opt, Generics};
use crate::item::{
    init_fit, parse_fn_args, parse_init_var, parse_type_alias, parse_visibility, FnArgs, InitVar,
    ItemTypeAlias, Visibility,
};
use crate::punctuated::{chain, lemma_chain_push, lemma_tiles_item, lemma_tiles_sep, tiles, Punctuated};
use crate::stmt::{parse_block, Block};
use crate::ty::{bound_span, parse_bound, parse_type_annotation, Bound, TypeAnnotation};
use crate::token::{
    expect_group, ident_at, ipeek, kw_at, opt_kw, opt_punct, peek_ident, peek_open, peek_punct,
    punct_at, Delimiter, ErrorKind, Expected, Keyword, ParseError, Rule, Span, Token,
};

verus! {

/// The visibility of a class member; `Inherited` when no modifier is written.
#[derive(Clone, Copy, PartialEq, Eq, Debug, Structural)]
pub enum ClassVisibility {
    Private(usize),
    Public(usize),
    Protected(usize),
    Inherited,
}

impl ClassVisibility {
    /// The modifier occupies `lo..hi`.
    pub open spec fn fits(self, t: Seq<Token>, lo: int, hi: int) -> bool {
        match self {
            ClassVisibility::Private(i) => i == lo && hi == lo + 1 && kw_at(t, lo, Keyword::Private),
            ClassVisibility::Public(i) => i == lo && hi == lo + 1 && kw_at(t, lo, Keyword::Public),
            ClassVisibility::Protected(i) => i == lo && hi == lo + 1 && kw_at(t, lo, Keyword::Protected),
            ClassVisibility::Inherited => hi == lo,
        }
    }
}

/// `private`, `public` or `protected` if one comes next.
pub fn parse_class_visibility(toks: &Vec<Token>, pos: usize, lim: usize) -> (r: (ClassVisibility, usize))
    requires
        lim <= toks@.len(),
        pos <= lim,
    ensures
        r.1 == crate::grammar::class_vis_end(toks@, pos as int, lim as int),
        r.0.fits(toks@, pos as int, r.1 as int),
        r.1 <= lim,
        r.0 is Inherited <==> !(pos < lim && (kw_at(toks@, pos as int, Keyword::Private) || kw_at(
            toks@,
            pos as int,
            Keyword::Public,
        ) || kw_at(toks@, pos as int, Keyword::Protected))),
{
    if ipeek(toks, pos, lim, Keyword::Private) {
        (ClassVisibility::Private(pos), pos + 1)
    } else if ipeek(toks, pos, lim, Keyword::Public) {
        (ClassVisibility::Public(pos), pos + 1)
    } else if ipeek(toks, pos, lim, Keyword::Protected) {
        (ClassVisibility::Protected(pos), pos + 1)
    } else {
        (ClassVisibility::Inherited, pos)
    }
}

/// `impl(Capability)`: the member is reachable only by holders of the
/// capability, whose path fills the parentheses.
#[derive(Clone, Copy, PartialEq, Eq, Debug, Structural)]
pub struct ImplRestriction {
    pub impl_token: usize,
    pub open: usize,
    pub close: usize,
}

pub open spec fn restrict_fit(t: Seq<Token>, r: Option<ImplRestriction>, lo: int, hi: int) -> bool {
    match r {
        Some(x) => x.impl_token == lo && kw_at(t, lo, Keyword::Impl) && x.open == lo + 1 && group_at(
            t,
            x.open as int,
            x.close as int,
            Delimiter::Parenthesis,
        ) && crate::ty::path_shape(t, x.open + 1, x.close as int) && hi == x.close + 1,
        None => hi == lo,
    }
}

/// `impl ( path )` at `pos`.
pub fn parse_impl_restriction(toks: &Vec<Token>, pos: usize, lim: usize) -> (r: Result<(ImplRestriction, usize), ParseError>)
    requires
        lim <= toks@.len(),
    ensures
        crate::grammar::agrees(r, crate::grammar::g_impl_restriction(toks@, pos as int, lim as int)),
        r matches Ok((x, end)) ==> pos < end <= lim && restrict_fit(toks@, Some(x), pos as int, end as int),
{
    if !ipeek(toks, pos, lim, Keyword::Impl) {
        return Err(ParseError { pos, kind: ErrorKind::Expected(Expected::Keyword(Keyword::Impl)) });
    }
    let c = expect_group(toks, pos + 1, lim, Delimiter::Parenthesis)?;
    if !(pos + 2 < c && peek_ident(toks, pos + 2)) {
        return Err(ParseError { pos: pos + 2, kind: ErrorKind::Expected(Expected::Ident) });
    }
    let e = crate::ty::path_end(toks, pos + 2, c);
    if e != c {
        return Err(ParseError { pos: e, kind: ErrorKind::Expected(Expected::Close(Delimiter::Parenthesis)) });
    }
    Ok((ImplRestriction { impl_token: pos, open: pos + 1, close: c }, c + 1))
}

/// A member name, private to the class when written after `#`.
#[derive(Clone, Copy, PartialEq, Eq, Debug, Structural)]
pub struct ObjectIdent {
    pub sharp_token: Option<usize>,
    pub ident: usize,
}

impl ObjectIdent {
    pub open spec fn fits(self, t: Seq<Token>, lo: int, hi: int) -> bool {
        opt_punct(t, self.sharp_token, lo, self.ident as int, '#') && ident_at(t, self.ident as int) && hi
            == self.ident + 1
    }
}

pub fn parse_object_ident(toks: &Vec<Token>, pos: usize, lim: usize) -> (r: Result<(ObjectIdent, usize), ParseError>)
    requires
        lim <= toks@.len(),
    ensures
        crate::grammar::agrees(r, crate::grammar::g_object_ident(toks@, pos as int, lim as int)),
        r matches Ok((x, end)) ==> pos < end <= lim && x.fits(toks@, pos as int, end as int),
{
    let mut p = pos;
    let mut sharp_token = None;
    if p < lim && peek_punct(toks, p, '#') {
        sharp_token = Some(p);
        p = p + 1;
    }
    if !(p < lim && peek_ident(toks, p)) {
        return Err(ParseError { pos: p, kind: ErrorKind::Expected(Expected::Ident) });
    }
    Ok((ObjectIdent { sharp_token, ident: p }, p + 1))
}

/// `function name<..>(args): T { .. }`, the `function` optional.
#[derive(Debug)]
pub struct ObjectMethod {
    pub function_token: Option<usize>,
    pub ident: ObjectIdent,
    pub generics: Option<Generics>,
    pub inputs: FnArgs,
    pub outputs: Option<TypeAnnotation>,
    pub body: Block,
}

impl ObjectMethod {
    pub open spec fn fits(&self, t: Seq<Token>, lo: int, hi: int) -> bool
        decreases self,
    {
        let n = match self.ident.sharp_token {
            Some(s) => s as int,
            None => self.ident.ident as int,
        };
        &&& opt_kw(t, self.function_token, lo, n, Keyword::Function)
        &&& self.ident.fits(t, n, self.ident.ident + 1)
        &&& generics_fit(t, self.generics, self.ident.ident + 1, self.inputs.span().lo as int)
        &&& self.inputs.shaped(t)
        &&& annotation_fit(t, self.outputs, self.inputs.span().hi as int, self.body.span().lo as int)
        &&& self.body.shaped(t) && self.body.span().hi == hi
    }
}

/// A field: a name, an optional type, an optional initializer.
#[derive(Debug)]
pub struct ClassField {
    pub ident: ObjectIdent,
    pub ty: Option<TypeAnnotation>,
    pub init: Option<InitVar>,
}

/// A method, `static` if so marked.
#[derive(Debug)]
pub struct ClassMethod {
    pub static_token: Option<usize>,
    pub method: ObjectMethod,
}

/// A type alias declared in a class.
#[derive(Debug)]
pub struct ClassTypeAlias {
    pub alias: ItemTypeAlias,
}

#[derive(Debug)]
pub enum ClassStmtValue {
    Field(ClassField),
    Method(ClassMethod),
    TypeAlias(ClassTypeAlias),
}

impl ClassStmtValue {
    /// The position of this form in the order the forms are tried.
    pub open spec fn choice(&self) -> int {
        match self {
            ClassStmtValue::TypeAlias(_) => 0,
            ClassStmtValue::Method(_) => 1,
            ClassStmtValue::Field(_) => 2,
        }
    }

    pub open spec fn fits(&self, t: Seq<Token>, lo: int, hi: int) -> bool
        decreases self,
    {
        match self {
            ClassStmtValue::Field(f) => {
                let n = match f.ident.sharp_token {
                    Some(s) => s as int,
                    None => f.ident.ident as int,
                };
                let m = match f.ty {
                    Some(a) => a.span().hi as int,
                    None => f.ident.ident + 1,
                };
                n == lo && f.ident.fits(t, lo, f.ident.ident + 1) && annotation_fit(t, f.ty, f.ident.ident + 1, m)
                    && init_fit(t, f.init, m, hi)
            },
            ClassStmtValue::Method(m) => {
                let s = match m.static_token {
                    Some(s) => s + 1,
                    None => lo,
                };
                opt_kw(t, m.static_token, lo, s, Keyword::Static) && m.method.fits(t, s, hi)
            },
            ClassStmtValue::TypeAlias(a) => a.alias.lo() == lo && a.alias.alias.span.hi == hi && a.alias.shaped(t),
        }
    }
}

/// One class member: an optional capability restriction, a visibility, the
/// member, and an optional `;`.
#[derive(Debug)]
pub struct ClassStmt {
    pub span: Span,
    pub restrict: Option<ImplRestriction>,
    pub vis: ClassVisibility,
    pub stmt: ClassStmtValue,
    pub semi_colon_token: Option<usize>,
}

impl ClassStmt {
    /// Where the visibility modifier starts: after the restriction, if any.
    pub open spec fn vis_lo(&self) -> int {
        match self.restrict {
            Some(r) => r.close + 1,
            None => self.span.lo as int,
        }
    }

    /// Where the member starts: after the visibility modifier, if any.
    pub open spec fn member_lo(&self) -> int {
        match self.vis {
            ClassVisibility::Private(i) => i + 1,
            ClassVisibility::Public(i) => i + 1,
            ClassVisibility::Protected(i) => i + 1,
            ClassVisibility::Inherited => self.vis_lo(),
        }
    }

    /// Where the member ends: at the `;` if there is one, else with the
    /// statement.
    pub open spec fn member_hi(&self) -> int {
        match self.semi_colon_token {
            Some(p) => p as int,
            None => self.span.hi as int,
        }
    }

    /// Restriction, visibility, member and `;` follow each other over the
    /// statement's span.
    pub open spec fn shaped(&self, t: Seq<Token>) -> bool
        decreases self,
    {
        &&& restrict_fit(t, self.restrict, self.span.lo as int, self.vis_lo())
        &&& self.vis.fits(t, self.vis_lo(), self.member_lo())
        &&& self.member_lo() < self.member_hi()
        &&& self.stmt.fits(t, self.member_lo(), self.member_hi())
        &&& opt_punct(t, self.semi_colon_token, self.member_hi(), self.span.hi as int, ';')
    }
}

pub open spec fn class_stmt_span() -> spec_fn(ClassStmt) -> Span {
    |s: ClassStmt| s.span
}

/// `extends A + B`
#[derive(Debug)]
pub struct ClassBounds {
    pub extends_token: usize,
    pub bounds: Punctuated<Bound>,
}

/// The optional `extends` clause occupies `lo..hi`.
pub open spec fn bounds_fit(t: Seq<Token>, b: Option<ClassBounds>, lo: int, hi: int) -> bool {
    match b {
        Some(b) => b.extends_token == lo && kw_at(t, lo, Keyword::Extends) && tiles(
            t,
            b.bounds.items@,
            b.bounds.puncts@,
            lo + 1,
            hi,
            bound_span(),
            '+',
        ) && b.bounds.items@.len() > 0 && forall|i: int|
            0 <= i < b.bounds.items@.len() ==> (#[trigger] b.bounds.items@[i]).shaped(t),
        None => hi == lo,
    }
}

/// `export class Name<..> extends A + B { members }`
#[derive(Debug)]
pub struct ItemClass {
    pub vis: Visibility,
    pub class_token: usize,
    pub ident: usize,
    pub generics: Option<Generics>,
    pub bounds: Option<ClassBounds>,
    pub open: usize,
    pub stmts: Vec<ClassStmt>,
    pub close: usize,
}

impl ItemClass {
    pub open spec fn span(&self) -> Span {
        let lo = match self.vis.export_token {
            Some(e) => e,
            None => self.class_token,
        };
        Span { lo, hi: (self.close + 1) as usize }
    }

    pub open spec fn shaped(&self, t: Seq<Token>) -> bool
        decreases self,
    {
        let g = match self.generics {
            Some(g) => g.span().hi as int,
            None => self.ident + 1,
        };
        &&& opt_kw(t, self.vis.export_token, self.span().lo as int, self.class_token as int, Keyword::Export)
        &&& kw_at(t, self.class_token as int, Keyword::Class)
        &&& self.ident == self.class_token + 1 && ident_at(t, self.ident as int)
        &&& generics_fit(t, self.generics, self.ident + 1, g)
        &&& bounds_fit(t, self.bounds, g, self.open as int)
        &&& group_at(t, self.open as int, self.close as int, Delimiter::Brace)
        &&& chain(self.stmts@, self.open + 1, self.close as int, class_stmt_span())
        &&& forall|i: int| 0 <= i < self.stmts@.len() ==> (#[trigger] self.stmts@[i]).shaped(t)
    }
}

/// Bounds separated by `+` after `extends`, up to the `{` that opens a body.
pub fn parse_bounds_to_brace(toks: &Vec<Token>, pos: usize, lim: usize) -> (r: Result<(Punctuated<Bound>, usize), ParseError>)
    requires
        pos <= lim <= toks@.len(),
    ensures
        crate::grammar::agrees(r, crate::grammar::g_bounds_to_brace(toks@, pos as int, lim as int)),
        r matches Ok((l, end)) ==> pos < end < lim && crate::token::open_at(toks@, end as int, Delimiter::Brace)
            && tiles(toks@, l.items@, l.puncts@, pos as int, end as int, bound_span(), '+')
            && l.items@.len() > 0
            && forall|i: int| 0 <= i < l.items@.len() ==> (#[trigger] l.items@[i]).shaped(toks@),
{
    let mut l: Punctuated<Bound> = Punctuated::new();
    let mut p = pos;
    loop
        invariant
            pos <= p <= lim <= toks@.len(),
            l.puncts@.len() == l.items@.len(),
            crate::grammar::g_bounds_to_brace(toks@, p as int, lim as int) == crate::grammar::g_bounds_to_brace(toks@, pos as int, lim as int),
            tiles(toks@, l.items@, l.puncts@, pos as int, p as int, bound_span(), '+'),
            forall|i: int| 0 <= i < l.items@.len() ==> (#[trigger] l.items@[i]).shaped(toks@),
        decreases lim - p,
    {
        let (b, e) = parse_bound(toks, p, lim)?;
        proof {
            lemma_tiles_item(toks@, l.items@, l.puncts@, pos as int, p as int, bound_span(), '+', b);
        }
        l.items.push(b);
        p = e;
        if p < lim && peek_open(toks, p, Delimiter::Brace) {
            return Ok((l, p));
        }
        if !(p < lim && peek_punct(toks, p, '+')) {
            return Err(ParseError { pos: p, kind: ErrorKind::Expected(Expected::Punct('+')) });
        }
        proof {
            lemma_tiles_sep(toks@, l.items@, l.puncts@, pos as int, p as int, bound_span(), '+', p);
        }
        l.puncts.push(p);
        p = p + 1;
    }
}

/// `extends` and its bounds, if `extends` comes next.
pub fn parse_class_bounds(toks: &Vec<Token>, pos: usize, lim: usize) -> (r: Result<(Option<ClassBounds>, usize), ParseError>)
    requires
        pos <= lim <= toks@.len(),
    ensures
        crate::grammar::agrees(r, crate::grammar::g_class_bounds(toks@, pos as int, lim as int)),
        r matches Ok((b, end)) ==> pos <= end <= lim && bounds_fit(toks@, b, pos as int, end as int),
        r matches Ok((b, end)) ==> (b is Some ==> end < lim && crate::token::open_at(toks@, end as int, Delimiter::Brace)),
{
    if ipeek(toks, pos, lim, Keyword::Extends) {
        let (bounds, e) = parse_bounds_to_brace(toks, pos + 1, lim)?;
        Ok((Some(ClassBounds { extends_token: pos, bounds }), e))
    } else {
        Ok((None, pos))
    }
}

/// A method: `function` if written, a name, generics, parameters, an
/// optional return type, and a body.
pub fn parse_object_method(toks: &Vec<Token>, pos: usize, lim: usize) -> (r: Result<(ObjectMethod, usize), ParseError>)
    requires
        lim <= toks@.len(),
    ensures
        crate::grammar::agrees(r, crate::grammar::g_object_method(toks@, pos as int, lim as int)),
        r matches Ok((m, end)) ==> pos < end <= lim && m.fits(toks@, pos as int, end as int),
    decreases lim - pos, 6nat,
{
    let mut p = pos;
    let mut function_token = None;
    if ipeek(toks, p, lim, Keyword::Function) {
        function_token = Some(p);
        p = p + 1;
    }
    let (ident, q) = parse_object_ident(toks, p, lim)?;
    let (generics, q) = parse_generics_opt(toks, q, lim)?;
    let (inputs, q) = parse_fn_args(toks, q, lim)?;
    let mut q = q;
    let mut outputs = None;
    if q < lim && peek_punct(toks, q, ':') {
        let (a, q2) = parse_type_annotation(toks, q, lim)?;
        outputs = Some(a);
        q = q2;
    }
    let (body, e) = parse_block(toks, q, lim)?;
    Ok((ObjectMethod { function_token, ident, generics, inputs, outputs, body }, e))
}

/// `static`? then a method.
pub fn parse_class_method(toks: &Vec<Token>, pos: usize, lim: usize) -> (r: Result<(ClassStmtValue, usize), ParseError>)
    requires
        lim <= toks@.len(),
    ensures
        crate::grammar::agrees(r, crate::grammar::g_class_method(toks@, pos as int, lim as int)),
        r matches Ok((v, end)) ==> pos < end <= lim && v is Method && v.fits(toks@, pos as int, end as int),
    decreases lim - pos, 7nat,
{
    let mut p = pos;
    let mut static_token = None;
    if ipeek(toks, p, lim, Keyword::Static) {
        static_token = Some(p);
        p = p + 1;
    }
    let (method, e) = parse_object_method(toks, p, lim)?;
    Ok((ClassStmtValue::Method(ClassMethod { static_token, method }), e))
}

/// A field: a name, `: T` if present, `= expr` if present.
pub fn parse_class_field(toks: &Vec<Token>, pos: usize, lim: usize) -> (r: Result<(ClassStmtValue, usize), ParseError>)
    requires
        lim <= toks@.len(),
    ensures
        crate::grammar::agrees(r, crate::grammar::g_class_field(toks@, pos as int, lim as int)),
        r matches Ok((v, end)) ==> pos < end <= lim && v is Field && v.fits(toks@, pos as int, end as int),
    decreases lim - pos, 7nat,
{
    let (ident, mut p) = parse_object_ident(toks, pos, lim)?;
    let mut ty = None;
    if p < lim && peek_punct(toks, p, ':') {
        let (a, e) = parse_type_annotation(toks, p, lim)?;
        ty = Some(a);
        p = e;
    }
    let (init, e) = parse_init_var(toks, p, lim)?;
    Ok((ClassStmtValue::Field(ClassField { ident, ty, init }), e))
}

/// A member: a type alias, a method, or a field, tried in that order.
pub fn parse_class_stmt_value(toks: &Vec<Token>, pos: usize, lim: usize) -> (r: Result<(ClassStmtValue, usize), ParseError>)
    requires
        lim <= toks@.len(),
    ensures
        r matches Ok((v, _)) ==> v.choice() == crate::grammar::class_member_choice(toks@, pos as int, lim as int),
        crate::grammar::agrees(r, crate::grammar::g_class_stmt_value(toks@, pos as int, lim as int)),
        r matches Ok((v, end)) ==> pos < end <= lim && v.fits(toks@, pos as int, end as int),
    decreases lim - pos, 8nat,
{
    if let Ok((alias, e)) = parse_type_alias(toks, pos, lim) {
        return Ok((ClassStmtValue::TypeAlias(ClassTypeAlias { alias }), e));
    }
    if let Ok(x) = parse_class_method(toks, pos, lim) {
        return Ok(x);
    }
    if let Ok(x) = parse_class_field(toks, pos, lim) {
        return Ok(x);
    }
    Err(ParseError { pos, kind: ErrorKind::NoMatch(Rule::ClassMember) })
}

pub fn parse_class_stmt(toks: &Vec<Token>, pos: usize, lim: usize) -> (r: Result<(ClassStmt, usize), ParseError>)
    requires
        lim <= toks@.len(),
    ensures
        crate::grammar::agrees(r, crate::grammar::g_class_stmt(toks@, pos as int, lim as int)),
        r matches Ok((s, end)) ==> pos < end <= lim && s.span.is(pos as int, end as int),
        r matches Ok((s, end)) ==> s.shaped(toks@),
    decreases lim - pos, 9nat,
{
    if pos > lim {
        return Err(ParseError { pos, kind: ErrorKind::NoMatch(Rule::ClassMember) });
    }
    let mut restrict = None;
    let mut a = pos;
    if ipeek(toks, pos, lim, Keyword::Impl) {
        let (x, e) = parse_impl_restriction(toks, pos, lim)?;
        restrict = Some(x);
        a = e;
    }
    let (vis, b) = parse_class_visibility(toks, a, lim);
    let (stmt, c) = parse_class_stmt_value(toks, b, lim)?;
    let mut end = c;
    let mut semi_colon_token = None;
    if c < lim && peek_punct(toks, c, ';') {
        semi_colon_token = Some(c);
        end = c + 1;
    }
    let s = ClassStmt { span: Span { lo: pos, hi: end }, restrict, vis, stmt, semi_colon_token };
    Ok((s, end))
}

/// `export class Name<..> extends A + B { members }`
#[verifier::rlimit(60)]
pub fn parse_class(toks: &Vec<Token>, pos: usize, lim: usize) -> (r: Result<(ItemClass, usize), ParseError>)
    requires
        lim <= toks@.len(),
    ensures
        crate::grammar::agrees(r, crate::grammar::g_class(toks@, pos as int, lim as int)),
        r matches Ok((x, end)) ==> pos < end <= lim && x.span().is(pos as int, end as int) && x.shaped(toks@),
    decreases lim - pos, 16nat,
{
    if pos > lim {
        return Err(ParseError { pos, kind: ErrorKind::Expected(Expected::Keyword(Keyword::Class)) });
    }
    let (vis, p) = parse_visibility(toks, pos, lim);
    if !ipeek(toks, p, lim, Keyword::Class) {
        return Err(ParseError { pos: p, kind: ErrorKind::Expected(Expected::Keyword(Keyword::Class)) });
    }
    if !(p + 1 < lim && peek_ident(toks, p + 1)) {
        return Err(ParseError { pos: p + 1, kind: ErrorKind::Expected(Expected::Ident) });
    }
    let (generics, q) = parse_generics_opt(toks, p + 2, lim)?;
    let (bounds, o) = parse_class_bounds(toks, q, lim)?;
    let c = expect_group(toks, o, lim, Delimiter::Brace)?;
    let mut stmts: Vec<ClassStmt> = Vec::new();
    let mut s = o + 1;
    while s < c
        invariant
            pos <= o < s <= c < lim <= toks@.len(),
            chain(stmts@, o + 1, s as int, class_stmt_span()),
            crate::grammar::g_class(toks@, pos as int, lim as int) == (if crate::grammar::g_class_stmts(toks@, s as int, c as int) { Some(c + 1) } else { None::<int> }),
            forall|i: int| 0 <= i < stmts@.len() ==> (#[trigger] stmts@[i]).shaped(toks@),
        decreases c - s,
    {
        let (x, e) = parse_class_stmt(toks, s, c)?;
        proof {
            lemma_chain_push(stmts@, o + 1, s as int, class_stmt_span(), x);
        }
        stmts.push(x);
        s = e;
    }
    Ok((ItemClass { vis, class_token: p, ident: p + 1, generics, bounds, open: o, stmts, close: c }, c + 1))
}

} // verus!
