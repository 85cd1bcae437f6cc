use vstd::prelude::*;
use crate::item::ItemStart;
use crate::token::{
    arrow_at, assign_eq_at, binop_len, closes, ident_at, joint_at, kw_at, literal_at, open_at,
    punct_at, skip_trees, word_at, Delimiter, Keyword, Token,
};
use crate::ty::path_step_at;

verus! {

// The grammar as a recognizer. Each function says whether its rule matches
// the tokens from `pos` (within `lim`) and, if so, where the match ends. The
// forms of a tagged union are tried in their declared order and the first
// that matches is taken, so each rule has exactly one outcome.

/// A parse result agrees with the recognizer: it succeeds exactly when the
/// rule matches, and ends where the match ends.
pub open spec fn agrees<T>(r: Result<(T, usize), crate::token::ParseError>, g: Option<int>) -> bool {
    &&& (r is Ok <==> g is Some)
    &&& (r matches Ok((_, e)) ==> g == Some(e as int))
}

/// The close of the group of kind `d` that opens at `o`, before `lim`.
pub open spec fn group_end_of(t: Seq<Token>, o: int, lim: int, d: Delimiter) -> Option<int> {
    if 0 <= o < lim && open_at(t, o, d) && exists|c: int| c < lim && closes(t, o, c) {
        Some(choose|c: int| c < lim && closes(t, o, c))
    } else {
        None
    }
}

/// The end of the longest run of `::name` steps from `p`.
pub open spec fn path_from(t: Seq<Token>, p: int, lim: int) -> int
    decreases lim - p,
{
    if p < lim && lim - p > 2 && path_step_at(t, p) {
        path_from(t, p + 3, lim)
    } else {
        p
    }
}

pub open spec fn lifetime_at(t: Seq<Token>, pos: int, lim: int) -> bool {
    pos < lim && pos + 1 < lim && joint_at(t, pos, '\'') && ident_at(t, pos + 1)
}

pub open spec fn g_type(t: Seq<Token>, pos: int, lim: int) -> Option<int>
    decreases lim - pos, 0nat,
{
    if pos < lim && punct_at(t, pos, '&') {
        let p1 = pos + 1;
        let p2 = if lifetime_at(t, p1, lim) { p1 + 2 } else { p1 };
        let p3 = if p2 < lim && word_at(t, p2, "mut"@) { p2 + 1 } else { p2 };
        g_type(t, p3, lim)
    } else if pos < lim && open_at(t, pos, Delimiter::Parenthesis) {
        match group_end_of(t, pos, lim, Delimiter::Parenthesis) {
            Some(c) => Some(c + 1),
            None => None,
        }
    } else if pos < lim && open_at(t, pos, Delimiter::Bracket) {
        match group_end_of(t, pos, lim, Delimiter::Bracket) {
            Some(c) => Some(c + 1),
            None => None,
        }
    } else if pos < lim && ident_at(t, pos) {
        let end = path_from(t, pos + 1, lim);
        if pos < end && end < lim && punct_at(t, end, '<') {
            g_angle(t, end, lim)
        } else {
            Some(end)
        }
    } else {
        None
    }
}

pub open spec fn g_bound(t: Seq<Token>, pos: int, lim: int) -> Option<int>
    decreases lim - pos, 1nat,
{
    if pos < lim && punct_at(t, pos, '\'') {
        if lifetime_at(t, pos, lim) {
            Some(pos + 2)
        } else {
            None
        }
    } else {
        g_type(t, pos, lim)
    }
}

pub open spec fn g_angle(t: Seq<Token>, pos: int, lim: int) -> Option<int>
    decreases lim - pos, 2nat,
{
    if pos < lim && punct_at(t, pos, '<') {
        g_angle_from(t, pos + 1, lim)
    } else {
        None
    }
}

/// The arguments from `p` up to and including the closing `>`.
pub open spec fn g_angle_from(t: Seq<Token>, p: int, lim: int) -> Option<int>
    decreases lim - p, 3nat,
{
    if p < lim && punct_at(t, p, '>') {
        Some(p + 1)
    } else {
        match g_bound(t, p, lim) {
            Some(e) => if p < e <= lim {
                if e < lim && punct_at(t, e, '>') {
                    Some(e + 1)
                } else if e < lim && punct_at(t, e, ',') {
                    g_angle_from(t, e + 1, lim)
                } else {
                    None
                }
            } else {
                None
            },
            None => None,
        }
    }
}

pub open spec fn g_annot(t: Seq<Token>, pos: int, lim: int) -> Option<int> {
    if pos < lim && punct_at(t, pos, ':') {
        g_type(t, pos + 1, lim)
    } else {
        None
    }
}

/// An optional `: T` at `p`.
pub open spec fn g_annot_opt(t: Seq<Token>, p: int, lim: int) -> Option<int> {
    if p < lim && punct_at(t, p, ':') {
        g_annot(t, p, lim)
    } else {
        Some(p)
    }
}

pub open spec fn g_pat(t: Seq<Token>, pos: int, lim: int) -> Option<int>
    decreases lim - pos, 1nat,
{
    if pos < lim && open_at(t, pos, Delimiter::Parenthesis) {
        match group_end_of(t, pos, lim, Delimiter::Parenthesis) {
            Some(c) => if g_pat_list(t, pos + 1, c) {
                Some(c + 1)
            } else {
                None
            },
            None => None,
        }
    } else if pos < lim && open_at(t, pos, Delimiter::Bracket) {
        match group_end_of(t, pos, lim, Delimiter::Bracket) {
            Some(c) => if g_pat_list(t, pos + 1, c) {
                Some(c + 1)
            } else {
                None
            },
            None => None,
        }
    } else if pos < lim && literal_at(t, pos) {
        Some(pos + 1)
    } else if pos < lim && word_at(t, pos, "_"@) {
        Some(pos + 1)
    } else if pos < lim && pos + 1 < lim && word_at(t, pos, "mut"@) && ident_at(t, pos + 1) {
        Some(pos + 2)
    } else if pos < lim && ident_at(t, pos) {
        Some(path_from(t, pos + 1, lim))
    } else {
        None
    }
}

/// Patterns separated by `,` fill `p..lim`.
pub open spec fn g_pat_list(t: Seq<Token>, p: int, lim: int) -> bool
    decreases lim - p, 2nat,
{
    if !(p < lim) {
        true
    } else {
        match g_pat(t, p, lim) {
            Some(e) => if p < e <= lim {
                if e == lim {
                    true
                } else if punct_at(t, e, ',') {
                    g_pat_list(t, e + 1, lim)
                } else {
                    false
                }
            } else {
                false
            },
            None => false,
        }
    }
}

/// Bounds separated by `+` from `p` to the first `,`, `>` or `=`.
pub open spec fn g_type_bounds(t: Seq<Token>, p: int, lim: int) -> Option<int>
    decreases lim - p,
{
    if p < lim && crate::generics::bound_list_stop(t, p) {
        Some(p)
    } else {
        match g_bound(t, p, lim) {
            Some(e) => if p < e <= lim {
                if e < lim && crate::generics::bound_list_stop(t, e) {
                    Some(e)
                } else if e < lim && punct_at(t, e, '+') {
                    g_type_bounds(t, e + 1, lim)
                } else {
                    None
                }
            } else {
                None
            },
            None => None,
        }
    }
}

pub open spec fn g_type_param(t: Seq<Token>, pos: int, lim: int) -> Option<int> {
    if !(pos < lim && ident_at(t, pos)) {
        None
    } else {
        let p1 = pos + 1;
        let p2 = if p1 < lim && kw_at(t, p1, Keyword::Extends) { p1 + 1 } else { p1 };
        match g_type_bounds(t, p2, lim) {
            Some(e) => if punct_at(t, e, '=') {
                match g_type(t, e + 1, lim) {
                    Some(e2) => if e2 < lim && (punct_at(t, e2, ',') || punct_at(t, e2, '>')) {
                        Some(e2)
                    } else {
                        None
                    },
                    None => None,
                }
            } else {
                Some(e)
            },
            None => None,
        }
    }
}

/// Lifetimes separated by `+` from `p` to the first `,` or `>`.
pub open spec fn g_lifetime_bounds(t: Seq<Token>, p: int, lim: int) -> Option<int>
    decreases lim - p,
{
    if p < lim && (punct_at(t, p, ',') || punct_at(t, p, '>')) {
        Some(p)
    } else if lifetime_at(t, p, lim) {
        let e = p + 2;
        if e < lim && (punct_at(t, e, ',') || punct_at(t, e, '>')) {
            Some(e)
        } else if e < lim && punct_at(t, e, '+') {
            g_lifetime_bounds(t, e + 1, lim)
        } else {
            None
        }
    } else {
        None
    }
}

pub open spec fn g_lifetime_param(t: Seq<Token>, pos: int, lim: int) -> Option<int> {
    if !lifetime_at(t, pos, lim) {
        None
    } else if !(pos + 2 < lim && kw_at(t, pos + 2, Keyword::Extends)) {
        Some(pos + 2)
    } else {
        g_lifetime_bounds(t, pos + 3, lim)
    }
}

pub open spec fn g_const_param(t: Seq<Token>, pos: int, lim: int) -> Option<int> {
    if pos < lim && kw_at(t, pos, Keyword::Const) && pos + 1 < lim && ident_at(t, pos + 1) && pos + 2 < lim
        && punct_at(t, pos + 2, ':') {
        g_type(t, pos + 3, lim)
    } else {
        None
    }
}

pub open spec fn g_generics_param(t: Seq<Token>, pos: int, lim: int) -> Option<int> {
    if pos < lim && punct_at(t, pos, '\'') {
        g_lifetime_param(t, pos, lim)
    } else if pos < lim && kw_at(t, pos, Keyword::Const) {
        g_const_param(t, pos, lim)
    } else if pos < lim && ident_at(t, pos) {
        g_type_param(t, pos, lim)
    } else {
        None
    }
}

/// Parameters from `p` up to and including the closing `>`.
pub open spec fn g_generics_from(t: Seq<Token>, p: int, lim: int) -> Option<int>
    decreases lim - p,
{
    if p < lim && punct_at(t, p, '>') {
        Some(p + 1)
    } else {
        match g_generics_param(t, p, lim) {
            Some(e) => if p < e <= lim {
                if e < lim && punct_at(t, e, '>') {
                    Some(e + 1)
                } else if e < lim && punct_at(t, e, ',') {
                    g_generics_from(t, e + 1, lim)
                } else {
                    None
                }
            } else {
                None
            },
            None => None,
        }
    }
}

/// The parameters from `p` all parse, each followed by `,`, until the input
/// ends with no `>`: the list is never closed.
pub open spec fn generics_run_out_from(t: Seq<Token>, p: int, lim: int) -> bool
    decreases lim - p,
{
    if !(p < lim) {
        true
    } else if punct_at(t, p, '>') {
        false
    } else {
        match g_generics_param(t, p, lim) {
            Some(e) => p < e <= lim && (e == lim || (punct_at(t, e, ',') && generics_run_out_from(t, e + 1, lim))),
            None => false,
        }
    }
}

pub open spec fn generics_run_out(t: Seq<Token>, pos: int, lim: int) -> bool {
    pos < lim && punct_at(t, pos, '<') && generics_run_out_from(t, pos + 1, lim)
}

pub open spec fn g_generics(t: Seq<Token>, pos: int, lim: int) -> Option<int> {
    if pos < lim && punct_at(t, pos, '<') {
        g_generics_from(t, pos + 1, lim)
    } else {
        None
    }
}

pub open spec fn g_generics_opt(t: Seq<Token>, pos: int, lim: int) -> Option<int> {
    if pos < lim && punct_at(t, pos, '<') {
        g_generics(t, pos, lim)
    } else {
        Some(pos)
    }
}

/// Parameters, each a pattern with an optional type, separated by `,`,
/// filling `p..lim`.
pub open spec fn g_fn_arg_list(t: Seq<Token>, p: int, lim: int) -> bool
    decreases lim - p,
{
    if !(p < lim) {
        true
    } else {
        match g_pat(t, p, lim) {
            Some(e0) => {
                let e1 = if e0 < lim && punct_at(t, e0, ':') { g_annot(t, e0, lim) } else { Some(e0) };
                match e1 {
                    Some(e) => if p < e <= lim {
                        if e == lim {
                            true
                        } else if punct_at(t, e, ',') {
                            g_fn_arg_list(t, e + 1, lim)
                        } else {
                            false
                        }
                    } else {
                        false
                    },
                    None => false,
                }
            },
            None => false,
        }
    }
}

pub open spec fn g_fn_args(t: Seq<Token>, pos: int, lim: int) -> Option<int> {
    match group_end_of(t, pos, lim, Delimiter::Parenthesis) {
        Some(c) => if g_fn_arg_list(t, pos + 1, c) {
            Some(c + 1)
        } else {
            None
        },
        None => None,
    }
}

pub open spec fn g_object_ident(t: Seq<Token>, pos: int, lim: int) -> Option<int> {
    let p = if pos < lim && punct_at(t, pos, '#') { pos + 1 } else { pos };
    if p < lim && ident_at(t, p) {
        Some(p + 1)
    } else {
        None
    }
}

pub open spec fn g_type_alias(t: Seq<Token>, pos: int, lim: int) -> Option<int> {
    let p = if pos < lim && kw_at(t, pos, Keyword::Export) { pos + 1 } else { pos };
    if pos > lim || !(p < lim && kw_at(t, p, Keyword::Type)) || !(p + 1 < lim && ident_at(t, p + 1)) {
        None
    } else {
        match g_generics_opt(t, p + 2, lim) {
            Some(q) => if q < lim && punct_at(t, q, '=') {
                g_type(t, q + 1, lim)
            } else {
                None
            },
            None => None,
        }
    }
}

/// The keyword `k` starts the `n`-th token tree from `pos`.
pub open spec fn nth_kw(t: Seq<Token>, pos: int, lim: int, n: nat, k: Keyword) -> bool {
    skip_trees(t, pos, (n - 1) as nat, lim) matches Some(j) && j < lim && kw_at(t, j, k)
}

/// Which item the next tokens start, told by their keywords.
pub open spec fn item_start_of(t: Seq<Token>, pos: int, lim: int) -> ItemStart {
    let kw = |k: Keyword| pos < lim && kw_at(t, pos, k);
    if kw(Keyword::Let) || kw(Keyword::Const) {
        ItemStart::Local
    } else if kw(Keyword::Function) || (kw(Keyword::Async) && nth_kw(t, pos, lim, 2, Keyword::Function)) || (kw(
        Keyword::Export,
    ) && nth_kw(t, pos, lim, 2, Keyword::Function)) || (kw(Keyword::Export) && nth_kw(t, pos, lim, 2, Keyword::Async)
        && nth_kw(t, pos, lim, 3, Keyword::Function)) {
        ItemStart::Function
    } else if kw(Keyword::Class) || (kw(Keyword::Export) && nth_kw(t, pos, lim, 2, Keyword::Class)) {
        ItemStart::Class
    } else if kw(Keyword::Interface) || (kw(Keyword::Export) && nth_kw(t, pos, lim, 2, Keyword::Interface)) {
        ItemStart::Interface
    } else if kw(Keyword::Type) || (kw(Keyword::Export) && nth_kw(t, pos, lim, 2, Keyword::Type)) {
        ItemStart::TypeAlias
    } else {
        ItemStart::Other
    }
}

/// Bounds separated by `+` up to the `{` of a body.
pub open spec fn g_bounds_to_brace(t: Seq<Token>, p: int, lim: int) -> Option<int>
    decreases lim - p,
{
    match g_bound(t, p, lim) {
        Some(e) => if p < e <= lim {
            if e < lim && open_at(t, e, Delimiter::Brace) {
                Some(e)
            } else if e < lim && punct_at(t, e, '+') {
                g_bounds_to_brace(t, e + 1, lim)
            } else {
                None
            }
        } else {
            None
        },
        None => None,
    }
}

pub open spec fn g_class_bounds(t: Seq<Token>, q: int, lim: int) -> Option<int> {
    if q < lim && kw_at(t, q, Keyword::Extends) {
        g_bounds_to_brace(t, q + 1, lim)
    } else {
        Some(q)
    }
}

/// Bounds of an associated type, up to `;`, `=`, or the next item.
pub open spec fn g_assoc_bounds(t: Seq<Token>, p: int, lim: int) -> Option<int>
    decreases lim - p,
{
    match g_bound(t, p, lim) {
        Some(e) => if p < e <= lim {
            if e < lim && (punct_at(t, e, ';') || punct_at(t, e, '=') || kw_at(t, e, Keyword::Function) || kw_at(
                t,
                e,
                Keyword::Type,
            )) {
                Some(e)
            } else if e < lim && punct_at(t, e, '+') {
                g_assoc_bounds(t, e + 1, lim)
            } else {
                None
            }
        } else {
            None
        },
        None => None,
    }
}

pub open spec fn g_interface_type(t: Seq<Token>, pos: int, lim: int) -> Option<int> {
    if !(pos < lim && kw_at(t, pos, Keyword::Type)) || !(pos + 1 < lim && ident_at(t, pos + 1)) {
        None
    } else {
        match g_generics_opt(t, pos + 2, lim) {
            Some(g) => {
                let b = if g < lim && kw_at(t, g, Keyword::Extends) { g_assoc_bounds(t, g + 1, lim) } else { Some(g) };
                match b {
                    Some(p) => {
                        let d = if p < lim && punct_at(t, p, '=') { g_type(t, p + 1, lim) } else { Some(p) };
                        match d {
                            Some(p2) => if p2 < lim && punct_at(t, p2, ';') {
                                Some(p2 + 1)
                            } else if p < lim && punct_at(t, p, '=') {
                                Some(p2)
                            } else {
                                None
                            },
                            None => None,
                        }
                    },
                    None => None,
                }
            },
            None => None,
        }
    }
}

pub open spec fn g_impl_restriction(t: Seq<Token>, pos: int, lim: int) -> Option<int> {
    if !(pos < lim && kw_at(t, pos, Keyword::Impl)) {
        None
    } else {
        match group_end_of(t, pos + 1, lim, Delimiter::Parenthesis) {
            Some(c) => if pos + 2 < c && ident_at(t, pos + 2) && path_from(t, pos + 3, c) == c {
                Some(c + 1)
            } else {
                None
            },
            None => None,
        }
    }
}

pub open spec fn class_vis_end(t: Seq<Token>, pos: int, lim: int) -> int {
    if pos < lim && (kw_at(t, pos, Keyword::Private) || kw_at(t, pos, Keyword::Public) || kw_at(
        t,
        pos,
        Keyword::Protected,
    )) {
        pos + 1
    } else {
        pos
    }
}

// The mutually recursive rules: expressions, statements, items.

pub open spec fn g_expr_list(t: Seq<Token>, p: int, lim: int) -> bool
    decreases lim - p, 30nat,
{
    if !(p < lim) {
        true
    } else {
        match g_expr(t, p, lim) {
            Some(e) => if p < e <= lim {
                if e == lim {
                    true
                } else if punct_at(t, e, ',') {
                    g_expr_list(t, e + 1, lim)
                } else {
                    false
                }
            } else {
                false
            },
            None => false,
        }
    }
}

pub open spec fn g_expr(t: Seq<Token>, pos: int, lim: int) -> Option<int>
    decreases lim - pos, 14nat,
{
    match g_binary(t, pos, lim) {
        Some(p) => if pos < p <= lim {
            if p < lim && assign_eq_at(t, p) {
                g_expr(t, p + 1, lim)
            } else if p < lim && punct_at(t, p, '?') {
                match g_expr(t, p + 1, lim) {
                    Some(q) => if p < q <= lim && q < lim && punct_at(t, q, ':') {
                        g_expr(t, q + 1, lim)
                    } else {
                        None
                    },
                    None => None,
                }
            } else {
                Some(p)
            }
        } else {
            None
        },
        None => None,
    }
}

pub open spec fn g_binary(t: Seq<Token>, pos: int, lim: int) -> Option<int>
    decreases lim - pos, 13nat,
{
    match g_unary(t, pos, lim) {
        Some(p) => if pos < p <= lim {
            g_binary_rest(t, p, lim)
        } else {
            None
        },
        None => None,
    }
}

/// The operator-and-operand pairs that follow an operand ending at `p`.
pub open spec fn g_binary_rest(t: Seq<Token>, p: int, lim: int) -> Option<int>
    decreases lim - p, 13nat,
{
    let n = binop_len(t, p, lim);
    if n == 0 {
        Some(p)
    } else if p + n <= lim {
        match g_unary(t, p + n, lim) {
            Some(q) => if p + n < q <= lim {
                g_binary_rest(t, q, lim)
            } else {
                None
            },
            None => None,
        }
    } else {
        None
    }
}

pub open spec fn g_unary(t: Seq<Token>, pos: int, lim: int) -> Option<int>
    decreases lim - pos, 12nat,
{
    if pos < lim && kw_at(t, pos, Keyword::Await) && g_unary(t, pos + 1, lim) is Some {
        g_unary(t, pos + 1, lim)
    } else {
        g_postfix(t, pos, lim)
    }
}

pub open spec fn g_postfix(t: Seq<Token>, pos: int, lim: int) -> Option<int>
    decreases lim - pos, 11nat,
{
    match g_primary(t, pos, lim) {
        Some(p) => if pos < p <= lim {
            g_postfix_rest(t, p, lim)
        } else {
            None
        },
        None => None,
    }
}

/// A method call or call whose arguments sit in the group opening at `o`.
pub open spec fn g_call_args(t: Seq<Token>, p: int, o: int, lim: int) -> Option<int>
    decreases lim - p, 10nat,
{
    match group_end_of(t, o, lim, Delimiter::Parenthesis) {
        Some(c) => if p < o && g_expr_list(t, o + 1, c) {
            Some(c + 1)
        } else {
            None
        },
        None => None,
    }
}

/// Method calls, field accesses and calls after an operand ending at `p`.
pub open spec fn g_postfix_rest(t: Seq<Token>, p: int, lim: int) -> Option<int>
    decreases lim - p, 11nat,
{
    if p < lim && punct_at(t, p, '.') && p + 1 < lim && ident_at(t, p + 1) {
        let m = p + 1;
        let turbo = m < lim && lim - m > 3 && joint_at(t, m + 1, ':') && punct_at(t, m + 2, ':') && punct_at(
            t,
            m + 3,
            '<',
        );
        if turbo || (m + 1 < lim && open_at(t, m + 1, Delimiter::Parenthesis)) {
            let o = if turbo { g_angle(t, m + 3, lim) } else { Some(m + 1) };
            match o {
                Some(o) => match g_call_args(t, p, o, lim) {
                    Some(e) => if p < e <= lim {
                        g_postfix_rest(t, e, lim)
                    } else {
                        None
                    },
                    None => None,
                },
                None => None,
            }
        } else {
            g_postfix_rest(t, m + 1, lim)
        }
    } else if p < lim && punct_at(t, p, '.') && p + 1 < lim && literal_at(t, p + 1) {
        g_postfix_rest(t, p + 2, lim)
    } else if p < lim && open_at(t, p, Delimiter::Parenthesis) {
        match group_end_of(t, p, lim, Delimiter::Parenthesis) {
            Some(c) => if g_expr_list(t, p + 1, c) {
                g_postfix_rest(t, c + 1, lim)
            } else {
                None
            },
            None => None,
        }
    } else {
        Some(p)
    }
}

/// The arrow function whose parameter group is `pos..=c`.
pub open spec fn g_arrow(t: Seq<Token>, pos: int, c: int, lim: int) -> Option<int>
    decreases lim - pos, 9nat,
{
    if pos < c && c < lim && g_pat_list(t, pos + 1, c) {
        match g_annot_opt(t, c + 1, lim) {
            Some(q) => if pos < q && q < lim && q + 1 < lim && arrow_at(t, q) {
                g_stmt(t, q + 2, lim)
            } else {
                None
            },
            None => None,
        }
    } else {
        None
    }
}

/// After `function`'s position `f`: generics, parameters, return type, body.
pub open spec fn g_fn_tail(t: Seq<Token>, pos: int, f: int, lim: int) -> Option<int>
    decreases lim - pos, 8nat,
{
    match g_generics_opt(t, f, lim) {
        Some(q) => match g_fn_args(t, q, lim) {
            Some(q2) => match g_annot_opt(t, q2, lim) {
                Some(q3) => if pos < q3 <= lim {
                    g_block(t, q3, lim)
                } else {
                    None
                },
                None => None,
            },
            None => None,
        },
        None => None,
    }
}

pub open spec fn g_function(t: Seq<Token>, pos: int, lim: int) -> Option<int>
    decreases lim - pos, 9nat,
{
    let p = if pos < lim && kw_at(t, pos, Keyword::Async) { pos + 1 } else { pos };
    if p < lim && kw_at(t, p, Keyword::Function) && pos <= p {
        g_fn_tail(t, pos, p + 1, lim)
    } else {
        None
    }
}

pub open spec fn g_paren_expr(t: Seq<Token>, pos: int, c: int) -> Option<int>
    decreases c - pos, 9nat,
{
    if pos < c {
        match g_expr(t, pos + 1, c) {
            Some(q) => if q == c {
                Some(c + 1)
            } else {
                None
            },
            None => None,
        }
    } else {
        None
    }
}

pub open spec fn g_primary(t: Seq<Token>, pos: int, lim: int) -> Option<int>
    decreases lim - pos, 10nat,
{
    if pos < lim && open_at(t, pos, Delimiter::Parenthesis) {
        match group_end_of(t, pos, lim, Delimiter::Parenthesis) {
            Some(c) => {
                let arrow = c + 1 < lim && c + 2 < lim && arrow_at(t, c + 1);
                if arrow {
                    g_arrow(t, pos, c, lim)
                } else if c + 1 < lim && punct_at(t, c + 1, ':') && g_arrow(t, pos, c, lim) is Some {
                    g_arrow(t, pos, c, lim)
                } else if pos < c && c < lim {
                    g_paren_expr(t, pos, c)
                } else {
                    None
                }
            },
            None => None,
        }
    } else if pos < lim && open_at(t, pos, Delimiter::Bracket) {
        match group_end_of(t, pos, lim, Delimiter::Bracket) {
            Some(c) => if pos < c && g_expr_list(t, pos + 1, c) {
                Some(c + 1)
            } else {
                None
            },
            None => None,
        }
    } else if pos < lim && literal_at(t, pos) {
        Some(pos + 1)
    } else if pos < lim && word_at(t, pos, "_"@) {
        Some(pos + 1)
    } else if ((pos < lim && kw_at(t, pos, Keyword::Function)) || (pos < lim && kw_at(t, pos, Keyword::Async)
        && pos + 1 < lim && kw_at(t, pos + 1, Keyword::Function))) && g_function(t, pos, lim) is Some {
        g_function(t, pos, lim)
    } else if pos < lim && kw_at(t, pos, Keyword::Rust) && pos + 1 < lim && open_at(t, pos + 1, Delimiter::Brace) {
        match group_end_of(t, pos + 1, lim, Delimiter::Brace) {
            Some(c) => Some(c + 1),
            None => None,
        }
    } else if pos < lim && kw_at(t, pos, Keyword::Return) {
        match g_expr(t, pos + 1, lim) {
            Some(e) => Some(e),
            None => Some(pos + 1),
        }
    } else if pos < lim && ident_at(t, pos) {
        Some(path_from(t, pos + 1, lim))
    } else {
        None
    }
}

pub open spec fn g_stmt(t: Seq<Token>, pos: int, lim: int) -> Option<int>
    decreases lim - pos, 21nat,
{
    match g_stmt_value(t, pos, lim) {
        Some(p) => if pos < p <= lim {
            if p < lim && punct_at(t, p, ';') {
                Some(p + 1)
            } else {
                Some(p)
            }
        } else {
            None
        },
        None => None,
    }
}

/// Which form of statement is taken at `pos`: the first, in the order block,
/// `if`, `switch`, `for`, `while`, `do`, item, expression, whose rule
/// matches; 8 when none does.
pub open spec fn stmt_choice(t: Seq<Token>, pos: int, lim: int) -> int
    decreases lim - pos, 19nat,
{
    if pos < lim && open_at(t, pos, Delimiter::Brace) && g_block(t, pos, lim) is Some {
        0
    } else if pos < lim && kw_at(t, pos, Keyword::If) && g_if(t, pos, lim) is Some {
        1
    } else if pos < lim && kw_at(t, pos, Keyword::Switch) && g_switch(t, pos, lim) is Some {
        2
    } else if pos < lim && kw_at(t, pos, Keyword::For) && g_for(t, pos, lim) is Some {
        3
    } else if pos < lim && kw_at(t, pos, Keyword::While) && g_while(t, pos, lim) is Some {
        4
    } else if pos < lim && kw_at(t, pos, Keyword::Do) && g_do_while(t, pos, lim) is Some {
        5
    } else if g_item(t, pos, lim) is Some {
        6
    } else if g_expr(t, pos, lim) is Some {
        7
    } else {
        8
    }
}

pub open spec fn g_stmt_value(t: Seq<Token>, pos: int, lim: int) -> Option<int>
    decreases lim - pos, 20nat,
{
    let k = stmt_choice(t, pos, lim);
    if k == 0 {
        g_block(t, pos, lim)
    } else if k == 1 {
        g_if(t, pos, lim)
    } else if k == 2 {
        g_switch(t, pos, lim)
    } else if k == 3 {
        g_for(t, pos, lim)
    } else if k == 4 {
        g_while(t, pos, lim)
    } else if k == 5 {
        g_do_while(t, pos, lim)
    } else if k == 6 {
        g_item(t, pos, lim)
    } else if k == 7 {
        g_expr(t, pos, lim)
    } else {
        None
    }
}

pub open spec fn g_stmts(t: Seq<Token>, p: int, lim: int) -> bool
    decreases lim - p, 30nat,
{
    if !(p < lim) {
        true
    } else {
        match g_stmt(t, p, lim) {
            Some(e) => if p < e <= lim {
                g_stmts(t, e, lim)
            } else {
                false
            },
            None => false,
        }
    }
}

pub open spec fn g_block(t: Seq<Token>, pos: int, lim: int) -> Option<int>
    decreases lim - pos, 18nat,
{
    match group_end_of(t, pos, lim, Delimiter::Brace) {
        Some(c) => if pos < c && g_stmts(t, pos + 1, c) {
            Some(c + 1)
        } else {
            None
        },
        None => None,
    }
}

pub open spec fn g_paren_cond(t: Seq<Token>, pos: int, lim: int) -> Option<int>
    decreases lim - pos, 17nat,
{
    match group_end_of(t, pos, lim, Delimiter::Parenthesis) {
        Some(c) => if pos < c && c < lim {
            g_paren_expr(t, pos, c)
        } else {
            None
        },
        None => None,
    }
}

pub open spec fn g_else(t: Seq<Token>, pos: int, lim: int) -> Option<int>
    decreases lim - pos, 17nat,
{
    if pos < lim && kw_at(t, pos, Keyword::Else) {
        g_stmt(t, pos + 1, lim)
    } else {
        Some(pos)
    }
}

/// A condition in parentheses, a body, and an optional `else`, from `pos`.
pub open spec fn g_cond_body_else(t: Seq<Token>, pos: int, lim: int) -> Option<int>
    decreases lim - pos, 18nat,
{
    match g_paren_cond(t, pos, lim) {
        Some(p) => if pos < p <= lim {
            match g_stmt(t, p, lim) {
                Some(p2) => if p < p2 <= lim {
                    g_else(t, p2, lim)
                } else {
                    None
                },
                None => None,
            }
        } else {
            None
        },
        None => None,
    }
}

pub open spec fn g_if(t: Seq<Token>, pos: int, lim: int) -> Option<int>
    decreases lim - pos, 18nat,
{
    if pos < lim && kw_at(t, pos, Keyword::If) {
        g_cond_body_else(t, pos + 1, lim)
    } else {
        None
    }
}

pub open spec fn g_while(t: Seq<Token>, pos: int, lim: int) -> Option<int>
    decreases lim - pos, 18nat,
{
    if pos < lim && kw_at(t, pos, Keyword::While) {
        g_cond_body_else(t, pos + 1, lim)
    } else {
        None
    }
}

pub open spec fn g_do_while(t: Seq<Token>, pos: int, lim: int) -> Option<int>
    decreases lim - pos, 18nat,
{
    if pos < lim && kw_at(t, pos, Keyword::Do) {
        match g_stmt(t, pos + 1, lim) {
            Some(p) => if pos < p <= lim && p < lim && kw_at(t, p, Keyword::While) {
                match g_paren_cond(t, p + 1, lim) {
                    Some(q) => if p < q <= lim {
                        g_else(t, q, lim)
                    } else {
                        None
                    },
                    None => None,
                }
            } else {
                None
            },
            None => None,
        }
    } else {
        None
    }
}

pub open spec fn decl_kw_at(t: Seq<Token>, pos: int, lim: int) -> bool {
    pos < lim && (kw_at(t, pos, Keyword::Let) || kw_at(t, pos, Keyword::Const))
}

/// The for-in header `(let pat in name)` fills the group `pos..=c`.
pub open spec fn g_for_in(t: Seq<Token>, pos: int, c: int) -> bool {
    decl_kw_at(t, pos + 1, c) && match g_pat(t, pos + 2, c) {
        Some(p) => p < c && kw_at(t, p, Keyword::In) && p + 1 < c && ident_at(t, p + 1) && p + 2 == c,
        None => false,
    }
}

/// The three-clause header `(init; cond; after)` fills the group `pos..=c`.
pub open spec fn g_for_clauses(t: Seq<Token>, pos: int, c: int) -> bool
    decreases c - pos, 16nat,
{
    if !(pos < c) {
        false
    } else {
    let p = pos + 1;
    let i = if !(p < c && punct_at(t, p, ';')) { g_stmt_value(t, p, c) } else { Some(p) };
    match i {
        Some(e) => if p <= e && e < c && punct_at(t, e, ';') {
            let p2 = e + 1;
            let k = if !(p2 < c && punct_at(t, p2, ';')) { g_expr(t, p2, c) } else { Some(p2) };
            match k {
                Some(e2) => if p2 <= e2 && e2 < c && punct_at(t, e2, ';') {
                    let p3 = e2 + 1;
                    p3 < c ==> g_stmt_value(t, p3, c) == Some(c)
                } else {
                    false
                },
                None => false,
            }
        } else {
            false
        },
        None => false,
    }
}
}

pub open spec fn g_for_args(t: Seq<Token>, pos: int, lim: int) -> Option<int>
    decreases lim - pos, 17nat,
{
    match group_end_of(t, pos, lim, Delimiter::Parenthesis) {
        Some(c) => if pos < c < lim && (g_for_in(t, pos, c) || g_for_clauses(t, pos, c)) {
            Some(c + 1)
        } else {
            None
        },
        None => None,
    }
}

pub open spec fn g_for(t: Seq<Token>, pos: int, lim: int) -> Option<int>
    decreases lim - pos, 18nat,
{
    if pos < lim && kw_at(t, pos, Keyword::For) {
        match g_for_args(t, pos + 1, lim) {
            Some(p) => if pos < p <= lim {
                match g_stmt(t, p, lim) {
                    Some(p2) => if p < p2 <= lim {
                        g_else(t, p2, lim)
                    } else {
                        None
                    },
                    None => None,
                }
            } else {
                None
            },
            None => None,
        }
    } else {
        None
    }
}

/// The statements of an arm from `p`, up to the next `case` or `default`.
pub open spec fn g_arm_body(t: Seq<Token>, p: int, lim: int) -> Option<int>
    decreases lim - p, 22nat,
{
    if p < lim && !kw_at(t, p, Keyword::Case) && !kw_at(t, p, Keyword::Default) {
        match g_stmt(t, p, lim) {
            Some(e) => if p < e <= lim {
                g_arm_body(t, e, lim)
            } else {
                None
            },
            None => None,
        }
    } else {
        Some(p)
    }
}

pub open spec fn g_arm(t: Seq<Token>, pos: int, lim: int) -> Option<int>
    decreases lim - pos, 23nat,
{
    if pos < lim && kw_at(t, pos, Keyword::Case) {
        match g_pat(t, pos + 1, lim) {
            Some(p) => if pos < p && p < lim && punct_at(t, p, ':') {
                g_arm_body(t, p + 1, lim)
            } else {
                None
            },
            None => None,
        }
    } else if pos < lim && kw_at(t, pos, Keyword::Default) {
        if pos + 1 < lim && punct_at(t, pos + 1, ':') {
            g_arm_body(t, pos + 2, lim)
        } else {
            None
        }
    } else {
        None
    }
}

pub open spec fn g_arms(t: Seq<Token>, p: int, c: int) -> bool
    decreases c - p, 24nat,
{
    if !(p < c) {
        true
    } else {
        match g_arm(t, p, c) {
            Some(e) => if p < e <= c {
                g_arms(t, e, c)
            } else {
                false
            },
            None => false,
        }
    }
}

pub open spec fn g_switch(t: Seq<Token>, pos: int, lim: int) -> Option<int>
    decreases lim - pos, 18nat,
{
    if pos < lim && kw_at(t, pos, Keyword::Switch) {
        match g_expr(t, pos + 1, lim) {
            Some(o) => match group_end_of(t, o, lim, Delimiter::Brace) {
                Some(c) => if pos < o < c && c < lim && g_arms(t, o + 1, c) {
                    Some(c + 1)
                } else {
                    None
                },
                None => None,
            },
            None => None,
        }
    } else {
        None
    }
}

pub open spec fn g_init_var(t: Seq<Token>, pos: int, lim: int) -> Option<int>
    decreases lim - pos, 15nat,
{
    if pos < lim && assign_eq_at(t, pos) {
        g_expr(t, pos + 1, lim)
    } else {
        Some(pos)
    }
}

pub open spec fn g_local(t: Seq<Token>, pos: int, lim: int) -> Option<int>
    decreases lim - pos, 16nat,
{
    if decl_kw_at(t, pos, lim) {
        match g_pat(t, pos + 1, lim) {
            Some(p) => match g_annot_opt(t, p, lim) {
                Some(q) => if pos < q <= lim {
                    g_init_var(t, q, lim)
                } else {
                    None
                },
                None => None,
            },
            None => None,
        }
    } else {
        None
    }
}

pub open spec fn g_item_function(t: Seq<Token>, pos: int, lim: int) -> Option<int>
    decreases lim - pos, 16nat,
{
    let p = if pos < lim && kw_at(t, pos, Keyword::Export) { pos + 1 } else { pos };
    let f = if p < lim && kw_at(t, p, Keyword::Async) { p + 1 } else { p };
    if pos <= lim && f < lim && kw_at(t, f, Keyword::Function) && f + 1 < lim && ident_at(t, f + 1) {
        g_fn_tail(t, pos, f + 2, lim)
    } else {
        None
    }
}

pub open spec fn g_object_method(t: Seq<Token>, pos: int, lim: int) -> Option<int>
    decreases lim - pos, 9nat,
{
    let p = if pos < lim && kw_at(t, pos, Keyword::Function) { pos + 1 } else { pos };
    match g_object_ident(t, p, lim) {
        Some(q) => if pos < q <= lim {
            g_fn_tail(t, pos, q, lim)
        } else {
            None
        },
        None => None,
    }
}

pub open spec fn g_class_method(t: Seq<Token>, pos: int, lim: int) -> Option<int>
    decreases lim - pos, 10nat,
{
    let s = if pos < lim && kw_at(t, pos, Keyword::Static) { pos + 1 } else { pos };
    g_object_method(t, s, lim)
}

pub open spec fn g_class_field(t: Seq<Token>, pos: int, lim: int) -> Option<int>
    decreases lim - pos, 10nat,
{
    match g_object_ident(t, pos, lim) {
        Some(p) => match g_annot_opt(t, p, lim) {
            Some(q) => if pos < q <= lim {
                g_init_var(t, q, lim)
            } else {
                None
            },
            None => None,
        },
        None => None,
    }
}

/// Which member form is taken: type alias, method, field, in that order; 3
/// when none matches.
pub open spec fn class_member_choice(t: Seq<Token>, pos: int, lim: int) -> int
    decreases lim - pos, 11nat,
{
    if g_type_alias(t, pos, lim) is Some {
        0
    } else if g_class_method(t, pos, lim) is Some {
        1
    } else if g_class_field(t, pos, lim) is Some {
        2
    } else {
        3
    }
}

pub open spec fn g_class_stmt_value(t: Seq<Token>, pos: int, lim: int) -> Option<int>
    decreases lim - pos, 12nat,
{
    let k = class_member_choice(t, pos, lim);
    if k == 0 {
        g_type_alias(t, pos, lim)
    } else if k == 1 {
        g_class_method(t, pos, lim)
    } else if k == 2 {
        g_class_field(t, pos, lim)
    } else {
        None
    }
}

pub open spec fn g_class_stmt(t: Seq<Token>, pos: int, lim: int) -> Option<int>
    decreases lim - pos, 13nat,
{
    let a = if pos < lim && kw_at(t, pos, Keyword::Impl) { g_impl_restriction(t, pos, lim) } else { Some(pos) };
    match a {
        Some(a) => {
            let b = class_vis_end(t, a, lim);
            if pos <= b <= lim {
                match g_class_stmt_value(t, b, lim) {
                    Some(c) => if b < c <= lim {
                        if c < lim && punct_at(t, c, ';') {
                            Some(c + 1)
                        } else {
                            Some(c)
                        }
                    } else {
                        None
                    },
                    None => None,
                }
            } else {
                None
            }
        },
        None => None,
    }
}

pub open spec fn g_class_stmts(t: Seq<Token>, s: int, c: int) -> bool
    decreases c - s, 14nat,
{
    if !(s < c) {
        true
    } else {
        match g_class_stmt(t, s, c) {
            Some(e) => if s < e <= c {
                g_class_stmts(t, e, c)
            } else {
                false
            },
            None => false,
        }
    }
}

/// The head of a class or interface: `export`, the keyword `k`, a name,
/// generics and an `extends` clause; the position of the body's `{`.
pub open spec fn g_head(t: Seq<Token>, pos: int, lim: int, k: Keyword) -> Option<int> {
    let p = if pos < lim && kw_at(t, pos, Keyword::Export) { pos + 1 } else { pos };
    if pos <= lim && p < lim && kw_at(t, p, k) && p + 1 < lim && ident_at(t, p + 1) {
        match g_generics_opt(t, p + 2, lim) {
            Some(q) => if q <= lim {
                g_class_bounds(t, q, lim)
            } else {
                None
            },
            None => None,
        }
    } else {
        None
    }
}

pub open spec fn g_class(t: Seq<Token>, pos: int, lim: int) -> Option<int>
    decreases lim - pos, 16nat,
{
    match g_head(t, pos, lim, Keyword::Class) {
        Some(o) => match group_end_of(t, o, lim, Delimiter::Brace) {
            Some(c) => if pos < o < c && c < lim && g_class_stmts(t, o + 1, c) {
                Some(c + 1)
            } else {
                None
            },
            None => None,
        },
        None => None,
    }
}

pub open spec fn g_interface_fn(t: Seq<Token>, pos: int, lim: int) -> Option<int>
    decreases lim - pos, 8nat,
{
    if pos < lim && kw_at(t, pos, Keyword::Function) && pos + 1 < lim && ident_at(t, pos + 1) {
        match g_generics_opt(t, pos + 2, lim) {
            Some(q) => match g_fn_args(t, q, lim) {
                Some(q2) => match g_annot_opt(t, q2, lim) {
                    Some(q3) => if pos < q3 <= lim && q3 < lim && open_at(t, q3, Delimiter::Brace) {
                        match g_block(t, q3, lim) {
                            Some(q4) => if q4 < lim && punct_at(t, q4, ';') {
                                None
                            } else {
                                Some(q4)
                            },
                            None => None,
                        }
                    } else if q3 < lim && punct_at(t, q3, ';') {
                        Some(q3 + 1)
                    } else {
                        None
                    },
                    None => None,
                },
                None => None,
            },
            None => None,
        }
    } else {
        None
    }
}

pub open spec fn g_interface_item(t: Seq<Token>, pos: int, lim: int) -> Option<int>
    decreases lim - pos, 9nat,
{
    if pos < lim && kw_at(t, pos, Keyword::Function) {
        g_interface_fn(t, pos, lim)
    } else if pos < lim && kw_at(t, pos, Keyword::Type) {
        g_interface_type(t, pos, lim)
    } else {
        None
    }
}

pub open spec fn g_interface_items(t: Seq<Token>, s: int, c: int) -> bool
    decreases c - s, 10nat,
{
    if !(s < c) {
        true
    } else {
        match g_interface_item(t, s, c) {
            Some(e) => if s < e <= c {
                g_interface_items(t, e, c)
            } else {
                false
            },
            None => false,
        }
    }
}

pub open spec fn g_interface(t: Seq<Token>, pos: int, lim: int) -> Option<int>
    decreases lim - pos, 16nat,
{
    match g_head(t, pos, lim, Keyword::Interface) {
        Some(o) => match group_end_of(t, o, lim, Delimiter::Brace) {
            Some(c) => if pos < o < c && c < lim && g_interface_items(t, o + 1, c) {
                Some(c + 1)
            } else {
                None
            },
            None => None,
        },
        None => None,
    }
}

pub open spec fn g_item(t: Seq<Token>, pos: int, lim: int) -> Option<int>
    decreases lim - pos, 17nat,
{
    match item_start_of(t, pos, lim) {
        ItemStart::Local => g_local(t, pos, lim),
        ItemStart::Function => g_item_function(t, pos, lim),
        ItemStart::Class => g_class(t, pos, lim),
        ItemStart::Interface => g_interface(t, pos, lim),
        ItemStart::TypeAlias => g_type_alias(t, pos, lim),
        ItemStart::Other => None,
    }
}

/// The items, each with an optional `;` after it, fill `p..` the end.
pub open spec fn g_program(t: Seq<Token>, p: int) -> bool
    decreases t.len() - p,
{
    if !(p < t.len()) {
        true
    } else {
        match g_item(t, p, t.len() as int) {
            Some(e) => if p < e <= t.len() {
                if e < t.len() && punct_at(t, e, ';') {
                    g_program(t, e + 1)
                } else {
                    g_program(t, e)
                }
            } else {
                false
            },
            None => false,
        }
    }
}

pub open spec fn g_object_field(t: Seq<Token>, pos: int, lim: int) -> Option<int> {
    match g_object_ident(t, pos, lim) {
        Some(p) => if p < lim && punct_at(t, p, ':') {
            g_expr(t, p + 1, lim)
        } else {
            Some(p)
        },
        None => None,
    }
}

/// Which member form of an object literal is taken: a method, else a field;
/// 2 when neither matches.
pub open spec fn object_member_choice(t: Seq<Token>, pos: int, lim: int) -> int {
    if g_object_method(t, pos, lim) is Some {
        0
    } else if g_object_field(t, pos, lim) is Some {
        1
    } else {
        2
    }
}

pub open spec fn g_object_stmt(t: Seq<Token>, pos: int, lim: int) -> Option<int> {
    if g_object_method(t, pos, lim) is Some {
        g_object_method(t, pos, lim)
    } else {
        g_object_field(t, pos, lim)
    }
}

/// Members separated by `,`, a trailing `,` allowed, filling `p..lim`.
pub open spec fn g_object_members(t: Seq<Token>, p: int, lim: int) -> bool
    decreases lim - p,
{
    if !(p < lim) {
        true
    } else {
        match g_object_stmt(t, p, lim) {
            Some(e) => if p < e <= lim {
                if e == lim {
                    true
                } else if punct_at(t, e, ',') {
                    g_object_members(t, e + 1, lim)
                } else {
                    false
                }
            } else {
                false
            },
            None => false,
        }
    }
}

pub open spec fn g_object(t: Seq<Token>, pos: int, lim: int) -> Option<int> {
    match group_end_of(t, pos, lim, Delimiter::Brace) {
        Some(c) => if g_object_members(t, pos + 1, c) {
            Some(c + 1)
        } else {
            None
        },
        None => None,
    }
}

} // verus!
