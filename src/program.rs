use vstd::prelude::*;
use crate::item::{parse_item, Item};
use crate::punctuated::{chain, lemma_chain_push};
use crate::token::{opt_punct, peek_punct, Span, ParseError, Token};

verus! {

/// A top-level item and the `;` after it, if any.
#[derive(Debug)]
pub struct ProgramItem {
    pub span: Span,
    pub item: Item,
    pub semi_token: Option<usize>,
}

pub open spec fn program_item_span() -> spec_fn(ProgramItem) -> Span {
    |i: ProgramItem| i.span
}

/// The top-level items of a source, in order.
#[derive(Debug)]
pub struct Program {
    pub items: Vec<ProgramItem>,
}

impl Program {
    /// Every token of `t` belongs to exactly one item, in order, and each item
    /// follows its grammar rule, as does every node below it.
    pub open spec fn covers(&self, t: Seq<Token>) -> bool {
        &&& chain(self.items@, 0, t.len() as int, program_item_span())
        &&& forall|i: int| 0 <= i < self.items@.len() ==> {
            let x = #[trigger] self.items@[i];
            &&& x.item.shaped(t)
            &&& x.item.span().lo == x.span.lo
            &&& opt_punct(t, x.semi_token, x.item.span().hi as int, x.span.hi as int, ';')
        }
    }
}

/// The tokens of the items, each re-emitted from its span, one after another.
pub open spec fn emit(t: Seq<Token>, items: Seq<ProgramItem>) -> Seq<Token>
    decreases items.len(),
{
    if items.len() == 0 {
        Seq::empty()
    } else {
        emit(t, items.drop_last()) + t.subrange(items.last().span.lo as int, items.last().span.hi as int)
    }
}

/// Items that tile `lo..hi` re-emit exactly the tokens `lo..hi`.
pub proof fn lemma_emit_chain(t: Seq<Token>, items: Seq<ProgramItem>, lo: int, hi: int)
    requires
        0 <= lo <= hi <= t.len(),
        chain(items, lo, hi, program_item_span()),
    ensures
        emit(t, items) == t.subrange(lo, hi),
    decreases items.len(),
{
    if items.len() == 0 {
        assert(t.subrange(lo, hi) =~= Seq::empty());
    } else {
        let init = items.drop_last();
        let m = items.last().span.lo as int;
        if init.len() > 0 {
            assert(init[init.len() - 1] == items[items.len() - 2]);
            let k = items.len() - 2;
            assert(0 <= k < items.len() - 1);
            assert(program_item_span()(items[k]).hi == program_item_span()(items[k + 1]).lo);
        }
        assert forall|i: int| 0 <= i < init.len() implies (#[trigger] program_item_span()(init[i])).lo
            < program_item_span()(init[i]).hi by {
            assert(init[i] == items[i]);
        }
        assert forall|i: int| 0 <= i < init.len() - 1 implies #[trigger] program_item_span()(init[i]).hi
            == program_item_span()(init[i + 1]).lo by {
            assert(init[i] == items[i]);
            assert(init[i + 1] == items[i + 1]);
        }
        if init.len() > 0 {
            assert(init[0] == items[0]);
        }
        assert(items[items.len() - 1].span.lo < items[items.len() - 1].span.hi);
        lemma_chain_lo_le(items, lo, hi);
        lemma_emit_chain(t, init, lo, m);
        assert(t.subrange(lo, m) + t.subrange(m, hi) =~= t.subrange(lo, hi));
    }
}

/// In a tiling of `lo..hi` the last item starts at or after `lo`.
proof fn lemma_chain_lo_le(items: Seq<ProgramItem>, lo: int, hi: int)
    requires
        items.len() > 0,
        chain(items, lo, hi, program_item_span()),
    ensures
        lo <= items.last().span.lo,
{
    let n = items.len() as int;
    assert forall|j: int| 0 <= j < n implies lo <= #[trigger] items[j].span.lo by {
        lemma_chain_prefix(items, lo, hi, j);
    }
}

proof fn lemma_chain_prefix(items: Seq<ProgramItem>, lo: int, hi: int, j: int)
    requires
        0 <= j < items.len(),
        chain(items, lo, hi, program_item_span()),
    ensures
        lo <= items[j].span.lo,
    decreases j,
{
    if j > 0 {
        lemma_chain_prefix(items, lo, hi, j - 1);
        assert(program_item_span()(items[j - 1]).lo < program_item_span()(items[j - 1]).hi);
        assert(program_item_span()(items[j - 1]).hi == program_item_span()(items[j]).lo);
    }
}

/// A successful parse accounts for every token: re-emitting each item from
/// its tokens gives back the whole input, and the grammar accepts the
/// re-emitted tokens exactly when it accepts the input, so parsing them
/// again succeeds, with the same outcome at every rule.
pub proof fn lemma_round_trip(t: Seq<Token>, p: Program)
    requires
        p.covers(t),
    ensures
        emit(t, p.items@) == t,
        crate::grammar::g_program(emit(t, p.items@), 0) == crate::grammar::g_program(t, 0),
{
    lemma_emit_chain(t, p.items@, 0, t.len() as int);
    assert(t.subrange(0, t.len() as int) =~= t);
}

/// Parses a whole token sequence into its items. All or nothing: the first
/// error ends the parse, and on success every token belongs to an item.
pub fn parse(toks: &Vec<Token>) -> (r: Result<Program, ParseError>)
    ensures
        r is Ok <==> crate::grammar::g_program(toks@, 0),
        r matches Ok(p) ==> p.covers(toks@),
        toks@.len() == 0 ==> (r matches Ok(p) && p.items@.len() == 0),
{
    let lim = toks.len();
    let mut items: Vec<ProgramItem> = Vec::new();
    let mut p: usize = 0;
    while p < lim
        invariant
            p <= lim == toks@.len(),
            crate::grammar::g_program(toks@, p as int) == crate::grammar::g_program(toks@, 0),
            chain(items@, 0, p as int, program_item_span()),
            forall|i: int| 0 <= i < items@.len() ==> {
                let x = #[trigger] items@[i];
                &&& x.item.shaped(toks@)
                &&& x.item.span().lo == x.span.lo
                &&& opt_punct(toks@, x.semi_token, x.item.span().hi as int, x.span.hi as int, ';')
            },
        decreases lim - p,
    {
        let (item, e) = parse_item(toks, p, lim)?;
        let (semi_token, end) = if e < lim && peek_punct(toks, e, ';') {
            (Some(e), e + 1)
        } else {
            (None, e)
        };
        let x = ProgramItem { span: Span { lo: p, hi: end }, item, semi_token };
        proof {
            lemma_chain_push(items@, 0, p as int, program_item_span(), x);
        }
        items.push(x);
        p = end;
    }
    Ok(Program { items })
}

} // verus!
