use vstd::prelude::*;
use crate::punctuated::{tiles, Punctuated};
use crate::token::{
    closes, expect_group, expect_ident, expected, ident_at, joint_at, literal_at, open_at,
    peek_ident, peek_joint, peek_literal, peek_open, peek_punct, peek_word, punct_at, word_at,
    Delimiter, ErrorKind, Expected, ParseError, Span, Token,
};

verus! {

/// A lifetime: a joint `'` and the identifier after it.
#[derive(Clone, Copy, PartialEq, Eq, Debug, Structural)]
pub struct Lifetime {
    pub quote: usize,
    pub ident: usize,
}

impl Lifetime {
    pub open spec fn span(self) -> Span {
        Span { lo: self.quote, hi: (self.ident + 1) as usize }
    }

    /// A joint `'` and the identifier right after it.
    pub open spec fn shaped(self, t: Seq<Token>) -> bool {
        self.ident == self.quote + 1 && joint_at(t, self.quote as int, '\'') && ident_at(t, self.ident as int)
    }
}

/// The outer form of a type. The inside of a tuple or slice type is kept as
/// its span.
#[derive(Clone, Copy, PartialEq, Eq, Debug, Structural)]
pub enum TypeKind {
    /// `a::b::C<..>`
    Path,
    /// `&'a mut T`
    Ref,
    /// `(..)`
    Tuple,
    /// `[..]`
    Slice,
}

/// A type, with the angle-bracketed arguments of a path and the type that a
/// reference points to.
#[derive(Debug)]
pub struct Type {
    pub span: Span,
    pub kind: TypeKind,
    pub args: Option<AngleArgs>,
    pub inner: Option<Box<Type>>,
}

/// A bound in an `extends` list, or an argument between angle brackets.
#[derive(Debug)]
pub enum Bound {
    Type(Type),
    Lifetime(Lifetime),
}

impl Bound {
    pub open spec fn span(self) -> Span {
        match self {
            Bound::Type(t) => t.span,
            Bound::Lifetime(l) => l.span(),
        }
    }
}

impl Bound {
    pub open spec fn shaped(&self, t: Seq<Token>) -> bool
        decreases self,
    {
        match self {
            Bound::Type(ty) => ty.shaped(t),
            Bound::Lifetime(l) => l.shaped(t),
        }
    }
}

/// What may stand between `&` and the referenced type: a lifetime, `mut`,
/// both in that order, or nothing.
pub open spec fn ref_middle(t: Seq<Token>, a: int, b: int) -> bool {
    let lifetime = joint_at(t, a, '\'') && ident_at(t, a + 1);
    ||| b == a
    ||| b == a + 1 && word_at(t, a, "mut"@)
    ||| b == a + 2 && lifetime
    ||| b == a + 3 && lifetime && word_at(t, a + 2, "mut"@)
}

impl Type {
    /// The type follows its rule over its span, and so do the types inside
    /// the arguments of a path and behind a reference.
    pub open spec fn shaped(&self, t: Seq<Token>) -> bool
        decreases self,
    {
        let lo = self.span.lo as int;
        let hi = self.span.hi as int;
        match self.kind {
            TypeKind::Path => self.inner is None && match &self.args {
                Some(a) => path_shape(t, lo, a.lt_token as int) && a.gt_token == hi - 1 && punct_at(
                    t,
                    a.lt_token as int,
                    '<',
                ) && punct_at(t, a.gt_token as int, '>') && tiles(
                    t,
                    a.args.items@,
                    a.args.puncts@,
                    a.lt_token + 1,
                    a.gt_token as int,
                    bound_span(),
                    ',',
                ) && forall|i: int| 0 <= i < a.args.items@.len() ==> (#[trigger] a.args.items@[i]).shaped(t),
                None => path_shape(t, lo, hi),
            },
            TypeKind::Ref => self.args is None && punct_at(t, lo, '&') && match &self.inner {
                Some(i) => ref_middle(t, lo + 1, i.span.lo as int) && i.span.hi == hi && i.shaped(t),
                None => false,
            },
            TypeKind::Tuple => self.args is None && self.inner is None && open_at(t, lo, Delimiter::Parenthesis)
                && closes(t, lo, hi - 1),
            TypeKind::Slice => self.args is None && self.inner is None && open_at(t, lo, Delimiter::Bracket)
                && closes(t, lo, hi - 1),
        }
    }
}

pub open spec fn bound_span() -> spec_fn(Bound) -> Span {
    |b: Bound| b.span()
}

/// `<A, 'b, C>`: the angle brackets and the arguments between them.
#[derive(Debug)]
pub struct AngleArgs {
    pub lt_token: usize,
    pub args: Punctuated<Bound>,
    pub gt_token: usize,
}

/// `: T`
#[derive(Debug)]
pub struct TypeAnnotation {
    pub colon_token: usize,
    pub ty: Type,
}

impl TypeAnnotation {
    pub open spec fn span(self) -> Span {
        Span { lo: self.colon_token, hi: self.ty.span.hi }
    }
}

/// The result of a rule that starts at `pos`: on success a node and the
/// position after it, with `pos < end <= lim`.
pub open spec fn advances<T>(r: Result<(T, usize), ParseError>, pos: int, lim: int) -> bool {
    r matches Ok((_, end)) ==> pos < end <= lim
}

/// A lifetime at `pos`: `'` spelled joint, then an identifier.
pub fn parse_lifetime(toks: &Vec<Token>, pos: usize, lim: usize) -> (r: Result<(Lifetime, usize), ParseError>)
    requires
        lim <= toks@.len(),
    ensures
        crate::grammar::agrees(r, if crate::grammar::lifetime_at(toks@, pos as int, lim as int) { Some(pos + 2) } else { None }),
        r is Ok <==> (pos < lim && pos + 1 < lim && joint_at(toks@, pos as int, '\'') && ident_at(toks@, pos + 1)),
        r matches Ok((l, end)) ==> l.quote == pos && l.ident == pos + 1 && end == pos + 2,
{
    if pos < lim && pos + 1 < lim && peek_joint(toks, pos, '\'') && peek_ident(toks, pos + 1) {
        Ok((Lifetime { quote: pos, ident: pos + 1 }, pos + 2))
    } else {
        Err(ParseError { pos, kind: ErrorKind::Expected(Expected::Lifetime) })
    }
}

/// `::` followed by an identifier at `p`.
pub open spec fn path_step_at(t: Seq<Token>, p: int) -> bool {
    joint_at(t, p, ':') && punct_at(t, p + 1, ':') && ident_at(t, p + 2)
}

/// The tokens `lo..hi` are a path: identifiers joined by `::`.
pub open spec fn path_shape(t: Seq<Token>, lo: int, hi: int) -> bool
    decreases hi - lo,
{
    if hi <= lo + 1 {
        hi == lo + 1 && ident_at(t, lo)
    } else {
        hi >= lo + 4 && path_shape(t, lo, hi - 3) && path_step_at(t, hi - 3)
    }
}

/// The position after the longest path `a::b::c` that starts at `pos`.
pub(crate) fn path_end(toks: &Vec<Token>, pos: usize, lim: usize) -> (r: usize)
    requires
        lim <= toks@.len(),
        pos < lim,
        ident_at(toks@, pos as int),
    ensures
        pos < r <= lim,
        r == crate::grammar::path_from(toks@, pos + 1, lim as int),
        path_shape(toks@, pos as int, r as int),
        !(r < lim && lim - r > 2 && path_step_at(toks@, r as int)),
{
    let mut p: usize = pos + 1;
    while p < lim && lim - p > 2 && peek_joint(toks, p, ':') && peek_punct(toks, p + 1, ':') && peek_ident(toks, p + 2)
        invariant
            pos < p <= lim <= toks@.len(),
            path_shape(toks@, pos as int, p as int),
            crate::grammar::path_from(toks@, p as int, lim as int) == crate::grammar::path_from(toks@, pos + 1, lim as int),
        decreases lim - p,
    {
        p = p + 3;
        assert(path_shape(toks@, pos as int, p as int));
    }
    p
}

/// A type: a path with optional angle-bracketed arguments, a reference, or a
/// bracketed group.
pub fn parse_type(toks: &Vec<Token>, pos: usize, lim: usize) -> (r: Result<(Type, usize), ParseError>)
    requires
        lim <= toks@.len(),
    ensures
        crate::grammar::agrees(r, crate::grammar::g_type(toks@, pos as int, lim as int)),
        advances(r, pos as int, lim as int),
        r matches Ok((ty, end)) ==> ty.span.is(pos as int, end as int),
        r matches Ok((ty, end)) ==> (ty.kind == TypeKind::Path <==> ident_at(toks@, pos as int)),
        r matches Ok((ty, end)) ==> (ty.kind == TypeKind::Ref <==> punct_at(toks@, pos as int, '&')),
        r matches Ok((ty, end)) ==> ty.shaped(toks@),
        r matches Ok((ty, end)) ==> (ty.kind == TypeKind::Tuple ==> open_at(
            toks@,
            pos as int,
            Delimiter::Parenthesis,
        ) && closes(toks@, pos as int, end - 1)),
        r matches Ok((ty, end)) ==> (ty.kind == TypeKind::Slice ==> open_at(
            toks@,
            pos as int,
            Delimiter::Bracket,
        ) && closes(toks@, pos as int, end - 1)),
    decreases lim - pos, 0nat,
{
    if pos < lim && peek_punct(toks, pos, '&') {
        let mut p = pos + 1;
        if let Ok((_, e)) = parse_lifetime(toks, p, lim) {
            p = e;
        }
        if p < lim && peek_word(toks, p, "mut") {
            p = p + 1;
        }
        let (inner, end) = parse_type(toks, p, lim)?;
        let ty = Type { span: Span { lo: pos, hi: end }, kind: TypeKind::Ref, args: None, inner: Some(Box::new(inner)) };
        return Ok((ty, end));
    }
    if pos < lim && peek_open(toks, pos, Delimiter::Parenthesis) {
        let c = expect_group(toks, pos, lim, Delimiter::Parenthesis)?;
        return Ok((Type { span: Span { lo: pos, hi: c + 1 }, kind: TypeKind::Tuple, args: None, inner: None }, c + 1));
    }
    if pos < lim && peek_open(toks, pos, Delimiter::Bracket) {
        let c = expect_group(toks, pos, lim, Delimiter::Bracket)?;
        return Ok((Type { span: Span { lo: pos, hi: c + 1 }, kind: TypeKind::Slice, args: None, inner: None }, c + 1));
    }
    if pos < lim && peek_ident(toks, pos) {
        let end = path_end(toks, pos, lim);
        if end < lim && peek_punct(toks, end, '<') {
            let (args, e) = parse_angle_args(toks, end, lim)?;
            return Ok((Type { span: Span { lo: pos, hi: e }, kind: TypeKind::Path, args: Some(args), inner: None }, e));
        }
        return Ok((Type { span: Span { lo: pos, hi: end }, kind: TypeKind::Path, args: None, inner: None }, end));
    }
    Err(ParseError { pos, kind: ErrorKind::Expected(Expected::Type) })
}

/// One bound: a lifetime or a type.
pub fn parse_bound(toks: &Vec<Token>, pos: usize, lim: usize) -> (r: Result<(Bound, usize), ParseError>)
    requires
        lim <= toks@.len(),
    ensures
        crate::grammar::agrees(r, crate::grammar::g_bound(toks@, pos as int, lim as int)),
        advances(r, pos as int, lim as int),
        r matches Ok((b, end)) ==> b.span().is(pos as int, end as int) && b.shaped(toks@),
        r matches Ok((b, end)) ==> (b is Lifetime <==> punct_at(toks@, pos as int, '\'')),
    decreases lim - pos, 1nat,
{
    if pos < lim && peek_punct(toks, pos, '\'') {
        let (l, end) = parse_lifetime(toks, pos, lim)?;
        Ok((Bound::Lifetime(l), end))
    } else {
        let (t, end) = parse_type(toks, pos, lim)?;
        Ok((Bound::Type(t), end))
    }
}

/// `<` arguments separated by `,` `>`, starting at the `<` at `pos`.
pub fn parse_angle_args(toks: &Vec<Token>, pos: usize, lim: usize) -> (r: Result<(AngleArgs, usize), ParseError>)
    requires
        lim <= toks@.len(),
    ensures
        crate::grammar::agrees(r, crate::grammar::g_angle(toks@, pos as int, lim as int)),
        advances(r, pos as int, lim as int),
        r matches Ok((a, end)) ==> a.lt_token == pos && a.gt_token == end - 1
            && punct_at(toks@, pos as int, '<') && punct_at(toks@, end - 1, '>')
            && tiles(toks@, a.args.items@, a.args.puncts@, pos + 1, end - 1, bound_span(), ',')
            && forall|i: int| 0 <= i < a.args.items@.len() ==> (#[trigger] a.args.items@[i]).shaped(toks@),
    decreases lim - pos, 2nat,
{
    if !(pos < lim && peek_punct(toks, pos, '<')) {
        return Err(ParseError { pos, kind: ErrorKind::Expected(Expected::Punct('<')) });
    }
    let mut args: Punctuated<Bound> = Punctuated::new();
    let mut p = pos + 1;
    while !(p < lim && peek_punct(toks, p, '>'))
        invariant_except_break
            args.puncts@.len() == args.items@.len(),
        invariant
            pos < p <= lim <= toks@.len(),
            tiles(toks@, args.items@, args.puncts@, pos + 1, p as int, bound_span(), ','),
            crate::grammar::g_angle_from(toks@, p as int, lim as int) == crate::grammar::g_angle_from(toks@, pos + 1, lim as int),
            forall|i: int| 0 <= i < args.items@.len() ==> (#[trigger] args.items@[i]).shaped(toks@),
        ensures
            p < lim && punct_at(toks@, p as int, '>'),
        decreases lim - p,
    {
        let (b, e) = parse_bound(toks, p, lim)?;
        proof {
            crate::punctuated::lemma_tiles_item(toks@, args.items@, args.puncts@, pos + 1, p as int, bound_span(), ',', b);
        }
        args.items.push(b);
        p = e;
        if p < lim && peek_punct(toks, p, '>') {
            break;
        }
        if !(p < lim && peek_punct(toks, p, ',')) {
            return Err(ParseError { pos: p, kind: ErrorKind::Expected(Expected::Punct(',')) });
        }
        proof {
            crate::punctuated::lemma_tiles_sep(toks@, args.items@, args.puncts@, pos + 1, p as int, bound_span(), ',', p);
        }
        args.puncts.push(p);
        p = p + 1;
    }
    Ok((AngleArgs { lt_token: pos, args, gt_token: p }, p + 1))
}

/// `: T`
pub fn parse_type_annotation(toks: &Vec<Token>, pos: usize, lim: usize) -> (r: Result<(TypeAnnotation, usize), ParseError>)
    requires
        lim <= toks@.len(),
    ensures
        crate::grammar::agrees(r, crate::grammar::g_annot(toks@, pos as int, lim as int)),
        advances(r, pos as int, lim as int),
        r matches Ok((a, end)) ==> a.colon_token == pos && punct_at(toks@, pos as int, ':')
            && a.ty.span.is(pos + 1, end as int) && a.ty.shaped(toks@),
{
    if !(pos < lim && peek_punct(toks, pos, ':')) {
        return Err(ParseError { pos, kind: ErrorKind::Expected(Expected::Punct(':')) });
    }
    let (ty, end) = parse_type(toks, pos + 1, lim)?;
    Ok((TypeAnnotation { colon_token: pos, ty }, end))
}

/// A pattern.
#[derive(Debug)]
pub enum PatKind {
    /// `x` or `mut x`
    Ident { by_mut: Option<usize>, ident: usize },
    /// `_`
    Wild,
    /// a literal
    Lit,
    /// `a::b`
    Path,
    /// `(p, q)`
    Tuple(Punctuated<Pat>),
    /// `[p, q]`
    Slice(Punctuated<Pat>),
}

#[derive(Debug)]
pub struct Pat {
    pub span: Span,
    pub kind: PatKind,
}

impl Pat {
    /// The pattern follows its rule over its span, and so do the patterns
    /// inside it.
    pub open spec fn shaped(&self, t: Seq<Token>) -> bool
        decreases self,
    {
        let lo = self.span.lo as int;
        let hi = self.span.hi as int;
        match &self.kind {
            PatKind::Ident { by_mut, ident } => (match by_mut {
                Some(m) => *m == lo && word_at(t, lo, "mut"@) && *ident == lo + 1,
                None => *ident == lo,
            }) && ident_at(t, *ident as int) && hi == *ident + 1,
            PatKind::Wild => word_at(t, lo, "_"@) && hi == lo + 1,
            PatKind::Lit => literal_at(t, lo) && hi == lo + 1,
            PatKind::Path => path_shape(t, lo, hi),
            PatKind::Tuple(l) => open_at(t, lo, Delimiter::Parenthesis) && closes(t, lo, hi - 1) && tiles(
                t,
                l.items@,
                l.puncts@,
                lo + 1,
                hi - 1,
                pat_span(),
                ',',
            ) && forall|i: int| 0 <= i < l.items@.len() ==> (#[trigger] l.items@[i]).shaped(t),
            PatKind::Slice(l) => open_at(t, lo, Delimiter::Bracket) && closes(t, lo, hi - 1) && tiles(
                t,
                l.items@,
                l.puncts@,
                lo + 1,
                hi - 1,
                pat_span(),
                ',',
            ) && forall|i: int| 0 <= i < l.items@.len() ==> (#[trigger] l.items@[i]).shaped(t),
        }
    }
}

pub open spec fn pat_span() -> spec_fn(Pat) -> Span {
    |p: Pat| p.span
}

/// The patterns separated by `,` that fill the tokens `lo..lim`.
pub fn parse_pat_list(toks: &Vec<Token>, lo: usize, lim: usize) -> (r: Result<Punctuated<Pat>, ParseError>)
    requires
        lo <= lim <= toks@.len(),
    ensures
        r is Ok <==> crate::grammar::g_pat_list(toks@, lo as int, lim as int),
        r matches Ok(l) ==> tiles(toks@, l.items@, l.puncts@, lo as int, lim as int, pat_span(), ','),
        r matches Ok(l) ==> (lo == lim ==> l.items@.len() == 0),
        r matches Ok(l) ==> forall|i: int| 0 <= i < l.items@.len() ==> (#[trigger] l.items@[i]).shaped(toks@),
    decreases lim - lo, 2nat,
{
    let mut l: Punctuated<Pat> = Punctuated::new();
    let mut p = lo;
    while p < lim
        invariant_except_break
            l.puncts@.len() == l.items@.len(),
        invariant
            lo <= p <= lim <= toks@.len(),
            tiles(toks@, l.items@, l.puncts@, lo as int, p as int, pat_span(), ','),
            crate::grammar::g_pat_list(toks@, p as int, lim as int) == crate::grammar::g_pat_list(toks@, lo as int, lim as int),
            p == lo ==> l.items@.len() == 0,
            forall|i: int| 0 <= i < l.items@.len() ==> (#[trigger] l.items@[i]).shaped(toks@),
        ensures
            p == lim,
        decreases lim - p,
    {
        let (x, e) = parse_pat(toks, p, lim)?;
        proof {
            crate::punctuated::lemma_tiles_item(toks@, l.items@, l.puncts@, lo as int, p as int, pat_span(), ',', x);
        }
        l.items.push(x);
        p = e;
        if p == lim {
            break;
        }
        if !peek_punct(toks, p, ',') {
            return Err(ParseError { pos: p, kind: ErrorKind::Expected(Expected::Punct(',')) });
        }
        proof {
            crate::punctuated::lemma_tiles_sep(toks@, l.items@, l.puncts@, lo as int, p as int, pat_span(), ',', p);
        }
        l.puncts.push(p);
        p = p + 1;
    }
    Ok(l)
}

/// A pattern: an identifier (maybe after `mut`), `_`, a literal, a path, or a
/// bracketed list of patterns.
#[verifier::rlimit(30)]
pub fn parse_pat(toks: &Vec<Token>, pos: usize, lim: usize) -> (r: Result<(Pat, usize), ParseError>)
    requires
        lim <= toks@.len(),
    ensures
        crate::grammar::agrees(r, crate::grammar::g_pat(toks@, pos as int, lim as int)),
        advances(r, pos as int, lim as int),
        r matches Ok((x, end)) ==> x.span.is(pos as int, end as int) && x.shaped(toks@),
        r matches Ok((x, end)) ==> (x.kind matches PatKind::Ident { ident, .. } ==> ident_at(
            toks@,
            ident as int,
        ) && end == ident + 1),
        pos < lim && (literal_at(toks@, pos as int) || ident_at(toks@, pos as int)) ==> r is Ok,
        r matches Ok((x, end)) ==> (x.kind is Lit ==> literal_at(toks@, pos as int) && end == pos + 1),
        r matches Ok((x, end)) ==> (x.kind is Path ==> path_shape(toks@, pos as int, end as int)),
        r matches Ok((x, end)) ==> (x.kind is Wild ==> word_at(toks@, pos as int, "_"@) && end == pos + 1),
        r matches Ok((x, end)) ==> (x.kind matches PatKind::Tuple(l) ==> open_at(
            toks@,
            pos as int,
            Delimiter::Parenthesis,
        ) && closes(toks@, pos as int, end - 1) && tiles(
            toks@,
            l.items@,
            l.puncts@,
            pos + 1,
            end - 1,
            pat_span(),
            ',',
        )),
        r matches Ok((x, end)) ==> (x.kind matches PatKind::Slice(l) ==> open_at(
            toks@,
            pos as int,
            Delimiter::Bracket,
        ) && closes(toks@, pos as int, end - 1) && tiles(
            toks@,
            l.items@,
            l.puncts@,
            pos + 1,
            end - 1,
            pat_span(),
            ',',
        )),
    decreases lim - pos, 1nat,
{
    if pos < lim && peek_open(toks, pos, Delimiter::Parenthesis) {
        let c = expect_group(toks, pos, lim, Delimiter::Parenthesis)?;
        let l = parse_pat_list(toks, pos + 1, c)?;
        return Ok((Pat { span: Span { lo: pos, hi: c + 1 }, kind: PatKind::Tuple(l) }, c + 1));
    }
    if pos < lim && peek_open(toks, pos, Delimiter::Bracket) {
        let c = expect_group(toks, pos, lim, Delimiter::Bracket)?;
        let l = parse_pat_list(toks, pos + 1, c)?;
        return Ok((Pat { span: Span { lo: pos, hi: c + 1 }, kind: PatKind::Slice(l) }, c + 1));
    }
    if pos < lim && peek_literal(toks, pos) {
        return Ok((Pat { span: Span { lo: pos, hi: pos + 1 }, kind: PatKind::Lit }, pos + 1));
    }
    if pos < lim && peek_word(toks, pos, "_") {
        return Ok((Pat { span: Span { lo: pos, hi: pos + 1 }, kind: PatKind::Wild }, pos + 1));
    }
    if pos < lim && pos + 1 < lim && peek_word(toks, pos, "mut") && peek_ident(toks, pos + 1) {
        let kind = PatKind::Ident { by_mut: Some(pos), ident: pos + 1 };
        return Ok((Pat { span: Span { lo: pos, hi: pos + 2 }, kind }, pos + 2));
    }
    expect_ident(toks, pos, lim).map_err(|e: ParseError| ParseError { pos, kind: ErrorKind::Expected(Expected::Pattern) })?;
    let end = path_end(toks, pos, lim);
    if end == pos + 1 {
        Ok((Pat { span: Span { lo: pos, hi: end }, kind: PatKind::Ident { by_mut: None, ident: pos } }, end))
    } else {
        Ok((Pat { span: Span { lo: pos, hi: end }, kind: PatKind::Path }, end))
    }
}

} // verus!
