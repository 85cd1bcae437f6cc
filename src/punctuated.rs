use vstd::prelude::*;
use crate::token::{punct_at, Span, Token};

verus! {

/// A sequence of items with the separator tokens that stood between them.
/// `puncts[i]` is the position of the separator after `items[i]`; when there
/// are as many separators as items, the last one trails.
#[derive(Debug)]
pub struct Punctuated<T> {
    pub items: Vec<T>,
    pub puncts: Vec<usize>,
}

impl<T> Punctuated<T> {
    pub fn new() -> (r: Self)
        ensures
            r.items@.len() == 0,
            r.puncts@.len() == 0,
    {
        Punctuated { items: Vec::new(), puncts: Vec::new() }
    }

    pub open spec fn has_trailing(&self) -> bool {
        self.items@.len() > 0 && self.puncts@.len() == self.items@.len()
    }

    pub fn len(&self) -> (r: usize)
        ensures
            r == self.items@.len(),
    {
        self.items.len()
    }

    /// Whether the list ends in a separator.
    pub fn trailing_punct(&self) -> (r: bool)
        ensures
            r == self.has_trailing(),
    {
        self.items.len() > 0 && self.puncts.len() == self.items.len()
    }
}

/// The items and separators cover the tokens `lo..hi` exactly, in order: each
/// item spans a non-empty run, each separator is the token `sep` right after
/// its item, and the next item starts right after it.
pub open spec fn tiles<T>(
    t: Seq<Token>,
    items: Seq<T>,
    puncts: Seq<usize>,
    lo: int,
    hi: int,
    span: spec_fn(T) -> Span,
    sep: char,
) -> bool {
    &&& puncts.len() == items.len() || puncts.len() + 1 == items.len()
    &&& items.len() > 0 ==> span(items[0]).lo == lo
    &&& forall|i: int|
        0 <= i < items.len() ==> (#[trigger] span(items[i])).lo < span(items[i]).hi
    &&& forall|i: int|
        0 <= i < puncts.len() ==> {
            &&& punct_at(t, #[trigger] puncts[i] as int, sep)
            &&& puncts[i] == span(items[i]).hi
            &&& i + 1 < items.len() ==> span(items[i + 1]).lo == puncts[i] + 1
        }
    &&& hi == (if items.len() == 0 {
        lo
    } else if puncts.len() == items.len() {
        puncts.last() + 1
    } else {
        span(items.last()).hi as int
    })
}


/// Appending an item that starts where the tiled run ends extends the run to
/// the item's end.
pub proof fn lemma_tiles_item<T>(
    t: Seq<Token>,
    items: Seq<T>,
    puncts: Seq<usize>,
    lo: int,
    hi: int,
    span: spec_fn(T) -> Span,
    sep: char,
    x: T,
)
    requires
        tiles(t, items, puncts, lo, hi, span, sep),
        puncts.len() == items.len(),
        span(x).lo == hi,
        span(x).lo < span(x).hi,
    ensures
        tiles(t, items.push(x), puncts, lo, span(x).hi as int, span, sep),
{
    let items2 = items.push(x);
    assert forall|i: int| 0 <= i < items2.len() implies (#[trigger] span(items2[i])).lo < span(items2[i]).hi by {
        if i < items.len() {
            assert(items2[i] == items[i]);
        }
    }
    assert forall|i: int| 0 <= i < puncts.len() implies {
        &&& punct_at(t, #[trigger] puncts[i] as int, sep)
        &&& puncts[i] == span(items2[i]).hi
        &&& i + 1 < items2.len() ==> span(items2[i + 1]).lo == puncts[i] + 1
    } by {
        assert(items2[i] == items[i]);
        if i + 1 < items.len() {
            assert(items2[i + 1] == items[i + 1]);
        } else {
            assert(items2[i + 1] == x);
        }
    }
    if items.len() > 0 {
        assert(items2[0] == items[0]);
    }
}

/// Appending the separator that follows the last item extends the run by one
/// token.
pub proof fn lemma_tiles_sep<T>(
    t: Seq<Token>,
    items: Seq<T>,
    puncts: Seq<usize>,
    lo: int,
    hi: int,
    span: spec_fn(T) -> Span,
    sep: char,
    q: usize,
)
    requires
        tiles(t, items, puncts, lo, hi, span, sep),
        puncts.len() + 1 == items.len(),
        q == hi,
        punct_at(t, q as int, sep),
    ensures
        tiles(t, items, puncts.push(q), lo, hi + 1, span, sep),
{
    let puncts2 = puncts.push(q);
    assert forall|i: int| 0 <= i < puncts2.len() implies {
        &&& punct_at(t, #[trigger] puncts2[i] as int, sep)
        &&& puncts2[i] == span(items[i]).hi
        &&& i + 1 < items.len() ==> span(items[i + 1]).lo == puncts2[i] + 1
    } by {
        if i < puncts.len() {
            assert(puncts2[i] == puncts[i]);
        }
    }
}


/// The items follow each other with no separator and cover `lo..hi` exactly,
/// each a non-empty run.
pub open spec fn chain<T>(items: Seq<T>, lo: int, hi: int, span: spec_fn(T) -> Span) -> bool {
    &&& items.len() == 0 ==> hi == lo
    &&& items.len() > 0 ==> span(items[0]).lo == lo && span(items.last()).hi == hi
    &&& forall|i: int| 0 <= i < items.len() ==> (#[trigger] span(items[i])).lo < span(items[i]).hi
    &&& forall|i: int|
        0 <= i < items.len() - 1 ==> #[trigger] span(items[i]).hi == span(items[i + 1]).lo
}

pub proof fn lemma_chain_push<T>(items: Seq<T>, lo: int, hi: int, span: spec_fn(T) -> Span, x: T)
    requires
        chain(items, lo, hi, span),
        span(x).lo == hi,
        span(x).lo < span(x).hi,
    ensures
        chain(items.push(x), lo, span(x).hi as int, span),
{
    let items2 = items.push(x);
    assert forall|i: int| 0 <= i < items2.len() implies (#[trigger] span(items2[i])).lo < span(
        items2[i],
    ).hi by {
        if i < items.len() {
            assert(items2[i] == items[i]);
        }
    }
    assert forall|i: int| 0 <= i < items2.len() - 1 implies #[trigger] span(items2[i]).hi == span(
        items2[i + 1],
    ).lo by {
        assert(items2[i] == items[i]);
        if i + 1 < items.len() {
            assert(items2[i + 1] == items[i + 1]);
        }
    }
    if items.len() > 0 {
        assert(items2[0] == items[0]);
    }
}

} // verus!
