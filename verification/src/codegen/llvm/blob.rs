//! Constant data as initializers.

use crate::codegen::constants::{reloc_views, BlobView, ConstBlob, Reloc};
use vstd::prelude::*;

verus! {

/// Part of an initializer: bytes, or the address of a piece of the pool.
#[derive(Debug)]
pub enum Piece {
    Bytes(Vec<u8>),
    Pointer(usize),
}

/// What a [`Piece`] says.
pub enum PieceView {
    Bytes(Seq<u8>),
    Pointer(usize),
}

impl View for Piece {
    type V = PieceView;

    open spec fn view(&self) -> PieceView {
        match *self {
            Piece::Bytes(bytes) => PieceView::Bytes(bytes@),
            Piece::Pointer(position) => PieceView::Pointer(position),
        }
    }
}

/// What pieces say, in order.
pub open spec fn piece_views(pieces: Seq<Piece>) -> Seq<PieceView> {
    pieces.map_values(|piece: Piece| piece@)
}

impl PieceView {
    /// Bytes of this piece.
    pub open spec fn width(self, pointer_bytes: u32) -> nat {
        match self {
            PieceView::Bytes(bytes) => bytes.len(),
            PieceView::Pointer(_) => pointer_bytes as nat,
        }
    }
}

/// What data starts out as: bytes, or pieces without gaps between them.
#[derive(Debug)]
pub enum Initializer {
    Bytes(Vec<u8>),
    Packed(Vec<Piece>),
}

/// What an [`Initializer`] says.
pub enum InitView {
    Bytes(Seq<u8>),
    Packed(Seq<PieceView>),
}

impl View for Initializer {
    type V = InitView;

    open spec fn view(&self) -> InitView {
        match *self {
            Initializer::Bytes(bytes) => InitView::Bytes(bytes@),
            Initializer::Packed(pieces) => InitView::Packed(piece_views(pieces@)),
        }
    }
}

/// An address put where it belongs among others in the order of their offsets,
/// in front of those with the same.
pub open spec fn placed(reloc: (u32, usize), sorted: Seq<(u32, usize)>) -> Seq<(u32, usize)>
    decreases sorted.len(),
{
    if sorted.len() == 0 || reloc.0 <= sorted[0].0 {
        seq![reloc] + sorted
    } else {
        seq![sorted[0]] + placed(reloc, sorted.skip(1))
    }
}

/// Addresses in the order of their offsets; those with the same stay in order.
pub open spec fn by_offset(relocs: Seq<(u32, usize)>) -> Seq<(u32, usize)>
    decreases relocs.len(),
{
    if relocs.len() == 0 {
        Seq::empty()
    } else {
        placed(relocs[0], by_offset(relocs.skip(1)))
    }
}

/// Where the first `n` addresses end.
pub open spec fn cursor(sorted: Seq<(u32, usize)>, pointer_bytes: u32, n: nat) -> nat {
    if n == 0 {
        0
    } else {
        (sorted[n - 1].0 + pointer_bytes) as nat
    }
}

/// The first `n` addresses with the bytes in front of each. Nothing where an
/// address lies outside the bytes.
pub open spec fn pieces_of(
    bytes: Seq<u8>,
    sorted: Seq<(u32, usize)>,
    pointer_bytes: u32,
    n: nat,
) -> Option<Seq<PieceView>>
    decreases n,
{
    if n == 0 {
        Some(Seq::empty())
    } else {
        match pieces_of(bytes, sorted, pointer_bytes, (n - 1) as nat) {
            Some(before) => {
                let start = cursor(sorted, pointer_bytes, (n - 1) as nat);
                let at = sorted[n - 1].0;
                if at <= start {
                    Some(before.push(PieceView::Pointer(sorted[n - 1].1)))
                } else if at <= bytes.len() {
                    Some(
                        before.push(
                            PieceView::Bytes(bytes.subrange(start as int, at as int)),
                        ).push(PieceView::Pointer(sorted[n - 1].1)),
                    )
                } else {
                    None
                }
            },
            None => None,
        }
    }
}

/// What a blob starts out as: its bytes as they are where no address is among
/// them, and otherwise its addresses with the bytes between them.
pub open spec fn materialized(blob: BlobView, pointer_bytes: u32) -> Option<InitView> {
    let sorted = by_offset(blob.relocs);
    let end = cursor(sorted, pointer_bytes, sorted.len());
    if blob.relocs.len() == 0 {
        Some(InitView::Bytes(blob.bytes))
    } else {
        match pieces_of(blob.bytes, sorted, pointer_bytes, sorted.len()) {
            Some(pieces) => Some(
                InitView::Packed(
                    if end < blob.bytes.len() {
                        pieces.push(PieceView::Bytes(blob.bytes.skip(end as int)))
                    } else {
                        pieces
                    },
                ),
            ),
            None => None,
        }
    }
}

/// Bytes of the first `n` pieces together.
pub open spec fn pieces_width(pieces: Seq<PieceView>, pointer_bytes: u32, n: nat) -> nat
    decreases n,
{
    if n == 0 {
        0
    } else {
        pieces_width(pieces, pointer_bytes, (n - 1) as nat) + pieces[n - 1].width(pointer_bytes)
    }
}

/// Whether addresses lie one behind the other within some bytes.
pub open spec fn apart(sorted: Seq<(u32, usize)>, pointer_bytes: u32, total: nat) -> bool {
    &&& forall|i: int|
        0 <= i < sorted.len() ==> cursor(sorted, pointer_bytes, i as nat) <= (#[trigger] sorted[i]).0
    &&& forall|i: int|
        0 <= i < sorted.len() ==> (#[trigger] sorted[i]).0 + pointer_bytes <= total
}

proof fn lemma_width_of_prefix(
    pieces: Seq<PieceView>,
    more: Seq<PieceView>,
    pointer_bytes: u32,
    n: nat,
)
    requires
        n <= pieces.len(),
        n <= more.len(),
        forall|i: int| 0 <= i < n ==> pieces[i] == more[i],
    ensures
        pieces_width(pieces, pointer_bytes, n) == pieces_width(more, pointer_bytes, n),
    decreases n,
{
    if n > 0 {
        lemma_width_of_prefix(pieces, more, pointer_bytes, (n - 1) as nat);
    }
}

proof fn lemma_pieces_reach(
    bytes: Seq<u8>,
    sorted: Seq<(u32, usize)>,
    pointer_bytes: u32,
    n: nat,
)
    requires
        n <= sorted.len(),
        apart(sorted, pointer_bytes, bytes.len()),
    ensures
        pieces_of(bytes, sorted, pointer_bytes, n) is Some,
        ({
            let pieces = pieces_of(bytes, sorted, pointer_bytes, n)->0;
            pieces_width(pieces, pointer_bytes, pieces.len()) == cursor(sorted, pointer_bytes, n)
        }),
    decreases n,
{
    if n > 0 {
        lemma_pieces_reach(bytes, sorted, pointer_bytes, (n - 1) as nat);
        let before = pieces_of(bytes, sorted, pointer_bytes, (n - 1) as nat)->0;
        let pieces = pieces_of(bytes, sorted, pointer_bytes, n)->0;
        assert(cursor(sorted, pointer_bytes, (n - 1) as nat) <= sorted[n - 1].0);
        assert(sorted[n - 1].0 + pointer_bytes <= bytes.len());
        lemma_width_of_prefix(before, pieces, pointer_bytes, before.len());
        if sorted[n - 1].0 > cursor(sorted, pointer_bytes, (n - 1) as nat) {
            assert(pieces_width(pieces, pointer_bytes, before.len() + 1) == pieces_width(
                pieces,
                pointer_bytes,
                before.len(),
            ) + pieces[before.len() as int].width(pointer_bytes));
        }
    }
}

/// Where no two addresses overlap and all lie within the bytes, the pieces of
/// a blob are together exactly as wide as the blob.
pub proof fn law_pieces_fill_the_blob(blob: BlobView, pointer_bytes: u32)
    requires
        blob.relocs.len() > 0,
        apart(by_offset(blob.relocs), pointer_bytes, blob.bytes.len()),
    ensures
        match materialized(blob, pointer_bytes) {
            Some(InitView::Packed(pieces)) => pieces_width(pieces, pointer_bytes, pieces.len())
                == blob.bytes.len(),
            _ => false,
        },
{
    let sorted = by_offset(blob.relocs);
    lemma_pieces_reach(blob.bytes, sorted, pointer_bytes, sorted.len());
    let pieces = pieces_of(blob.bytes, sorted, pointer_bytes, sorted.len())->0;
    let end = cursor(sorted, pointer_bytes, sorted.len());
    lemma_sorting_keeps_count(blob.relocs);
    assert(sorted[sorted.len() - 1].0 + pointer_bytes <= blob.bytes.len());
    if end < blob.bytes.len() {
        let all = pieces.push(PieceView::Bytes(blob.bytes.skip(end as int)));
        lemma_width_of_prefix(pieces, all, pointer_bytes, pieces.len());
    }
}

proof fn lemma_placing_adds_one(reloc: (u32, usize), sorted: Seq<(u32, usize)>)
    ensures
        placed(reloc, sorted).len() == sorted.len() + 1,
    decreases sorted.len(),
{
    if sorted.len() > 0 && reloc.0 > sorted[0].0 {
        lemma_placing_adds_one(reloc, sorted.skip(1));
    }
}

proof fn lemma_sorting_keeps_count(relocs: Seq<(u32, usize)>)
    ensures
        by_offset(relocs).len() == relocs.len(),
    decreases relocs.len(),
{
    if relocs.len() > 0 {
        lemma_sorting_keeps_count(relocs.skip(1));
        lemma_placing_adds_one(relocs[0], by_offset(relocs.skip(1)));
    }
}

proof fn lemma_placed_at(reloc: (u32, usize), sorted: Seq<(u32, usize)>, p: nat)
    requires
        p <= sorted.len(),
        forall|k: int| 0 <= k < p ==> (#[trigger] sorted[k]).0 < reloc.0,
        p < sorted.len() ==> reloc.0 <= sorted[p as int].0,
    ensures
        placed(reloc, sorted) == sorted.insert(p as int, reloc),
    decreases p,
{
    if p == 0 {
        assert(seq![reloc] + sorted =~= sorted.insert(0, reloc));
    } else {
        assert(sorted[0].0 < reloc.0);
        let rest = sorted.skip(1);
        assert forall|k: int| 0 <= k < p - 1 implies (#[trigger] rest[k]).0 < reloc.0 by {
            assert(rest[k] == sorted[k + 1]);
        }
        lemma_placed_at(reloc, rest, (p - 1) as nat);
        assert(seq![sorted[0]] + rest.insert(p - 1, reloc) =~= sorted.insert(p as int, reloc));
    }
}

fn sort_by_offset(relocs: &Vec<Reloc>) -> (sorted: Vec<Reloc>)
    ensures
        reloc_views(sorted@) == by_offset(reloc_views(relocs@)),
{
    let ghost all = reloc_views(relocs@);
    let mut sorted: Vec<Reloc> = Vec::new();
    let mut i: usize = relocs.len();
    assert(reloc_views(sorted@) =~= Seq::empty());
    assert(all.skip(i as int) =~= Seq::empty());
    while i > 0
        invariant
            i <= relocs@.len(),
            all == reloc_views(relocs@),
            reloc_views(sorted@) == by_offset(all.skip(i as int)),
        decreases i,
    {
        i = i - 1;
        let reloc: &Reloc = &relocs[i];
        let mut p: usize = 0;
        while p < sorted.len() && sorted[p].offset < reloc.offset
            invariant
                p <= sorted@.len(),
                forall|k: int| 0 <= k < p ==> (#[trigger] sorted@[k]).offset < reloc.offset,
            decreases sorted.len() - p,
        {
            p = p + 1;
        }
        let ghost before = reloc_views(sorted@);
        let copy = Reloc { offset: reloc.offset, target: reloc.target };
        let ghost view = copy@;
        proof {
            assert(all[i as int] == view);
            assert forall|k: int| 0 <= k < p implies (#[trigger] before[k]).0 < view.0 by {
                assert(sorted@[k].offset < reloc.offset);
            }
            lemma_placed_at(view, before, p as nat);
            assert(all.skip(i as int)[0] == view);
            assert(all.skip(i as int).skip(1) =~= all.skip(i + 1));
        }
        sorted.insert(p, copy);
        assert(reloc_views(sorted@) =~= before.insert(p as int, view));
    }
    assert(all.skip(0) =~= all);
    sorted
}

proof fn lemma_pieces_stop(
    bytes: Seq<u8>,
    sorted: Seq<(u32, usize)>,
    pointer_bytes: u32,
    n: nat,
    m: nat,
)
    requires
        n <= m,
        pieces_of(bytes, sorted, pointer_bytes, n) is None,
    ensures
        pieces_of(bytes, sorted, pointer_bytes, m) is None,
    decreases m,
{
    if n < m {
        lemma_pieces_stop(bytes, sorted, pointer_bytes, n, (m - 1) as nat);
    }
}

fn span(bytes: &Vec<u8>, start: usize, end: usize) -> (part: Vec<u8>)
    requires
        start <= end <= bytes@.len(),
    ensures
        part@ == bytes@.subrange(start as int, end as int),
{
    let mut part: Vec<u8> = Vec::new();
    let mut i: usize = start;
    while i < end
        invariant
            start <= i <= end <= bytes@.len(),
            part@ =~= bytes@.subrange(start as int, i as int),
        decreases end - i,
    {
        part.push(bytes[i]);
        i = i + 1;
    }
    part
}

/// What a blob starts out as.
pub fn materialize_blob(blob: &ConstBlob, pointer_bytes: u32) -> (found: Option<Initializer>)
    ensures
        match materialized(blob@, pointer_bytes) {
            Some(view) => found is Some && found->0@ == view,
            None => found is None,
        },
{
    let bytes: &Vec<u8> = &blob.bytes;
    if blob.relocs.len() == 0 {
        let whole: Vec<u8> = span(bytes, 0, bytes.len());
        assert(whole@ =~= bytes@);
        return Some(Initializer::Bytes(whole));
    }
    let sorted: Vec<Reloc> = sort_by_offset(&blob.relocs);
    let ghost order = reloc_views(sorted@);
    let mut pieces: Vec<Piece> = Vec::new();
    let mut at: u64 = 0;
    let mut i: usize = 0;
    assert(piece_views(pieces@) =~= Seq::empty());
    while i < sorted.len()
        invariant
            i <= sorted@.len(),
            order == reloc_views(sorted@),
            at == cursor(order, pointer_bytes, i as nat),
            pieces_of(bytes@, order, pointer_bytes, i as nat) == Some(piece_views(pieces@)),
            order == by_offset(blob@.relocs),
            bytes@ == blob@.bytes,
            blob@.relocs.len() > 0,
        decreases sorted.len() - i,
    {
        let reloc: &Reloc = &sorted[i];
        assert(order[i as int] == reloc@);
        if reloc.offset as u64 > at {
            if reloc.offset as u64 > bytes.len() as u64 {
                proof {
                    lemma_pieces_stop(
                        bytes@,
                        order,
                        pointer_bytes,
                        (i + 1) as nat,
                        order.len(),
                    );
                }
                return None;
            }
            let ghost before = pieces@;
            let part: Vec<u8> = span(bytes, at as usize, reloc.offset as usize);
            pieces.push(Piece::Bytes(part));
            assert(piece_views(pieces@) =~= piece_views(before).push(PieceView::Bytes(part@)));
        }
        let ghost before = pieces@;
        let target: usize = reloc.target;
        pieces.push(Piece::Pointer(target));
        assert(piece_views(pieces@) =~= piece_views(before).push(PieceView::Pointer(target)));
        at = reloc.offset as u64 + pointer_bytes as u64;
        i = i + 1;
    }
    if at < bytes.len() as u64 {
        let ghost before = pieces@;
        let part: Vec<u8> = span(bytes, at as usize, bytes.len());
        assert(part@ =~= bytes@.skip(at as int));
        pieces.push(Piece::Bytes(part));
        assert(piece_views(pieces@) =~= piece_views(before).push(PieceView::Bytes(part@)));
    }
    Some(Initializer::Packed(pieces))
}

} // verus!
