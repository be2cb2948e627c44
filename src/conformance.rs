//! The validation predicates on containers written out from chunk lists.

use vstd::prelude::*;

use crate::errors::Error;
use crate::fourcc::{data_sig, fmt_sig, junk_sig, list_sig, FourCC};
use crate::layout::{chunk_bytes, chunks_bytes, container, extents_of, lemma_scan_round_trip};
use crate::parser::{scan, ChunkExtent};
use crate::wavereader::{first_pos, filler_before, minimal, nth_with, prepared_for_append, readable};

verus! {

proof fn lemma_extents2(a: (FourCC, Seq<u8>), b: (FourCC, Seq<u8>))
    requires
        a.1.len() + b.1.len() + 30 < 0x1_0000_0000,
    ensures
        scan(container(seq![a, b])) == Ok::<Seq<ChunkExtent>, Error>(
            seq![
                ChunkExtent { signature: a.0, start: 20, length: a.1.len() as u64 },
                ChunkExtent {
                    signature: b.0,
                    start: (20 + chunk_bytes(a.0, a.1).len()) as u64,
                    length: b.1.len() as u64,
                },
            ],
        ),
{
    let cs = seq![a, b];
    assert(cs.drop_first() =~= seq![b]);
    assert(seq![b].drop_first() =~= Seq::<(FourCC, Seq<u8>)>::empty());
    reveal_with_fuel(chunks_bytes, 3);
    reveal_with_fuel(extents_of, 3);
    assert(chunks_bytes(cs).len() == chunk_bytes(a.0, a.1).len() + chunk_bytes(b.0, b.1).len());
    lemma_scan_round_trip(cs);
    assert(extents_of(cs, 12) =~= seq![
        ChunkExtent { signature: a.0, start: 20, length: a.1.len() as u64 },
        ChunkExtent {
            signature: b.0,
            start: (20 + chunk_bytes(a.0, a.1).len()) as u64,
            length: b.1.len() as u64,
        },
    ]);
}

proof fn lemma_extents3(a: (FourCC, Seq<u8>), b: (FourCC, Seq<u8>), c: (FourCC, Seq<u8>))
    requires
        a.1.len() + b.1.len() + c.1.len() + 40 < 0x1_0000_0000,
    ensures
        scan(container(seq![a, b, c])) == Ok::<Seq<ChunkExtent>, Error>(
            seq![
                ChunkExtent { signature: a.0, start: 20, length: a.1.len() as u64 },
                ChunkExtent {
                    signature: b.0,
                    start: (20 + chunk_bytes(a.0, a.1).len()) as u64,
                    length: b.1.len() as u64,
                },
                ChunkExtent {
                    signature: c.0,
                    start: (20 + chunk_bytes(a.0, a.1).len() + chunk_bytes(b.0, b.1).len()) as u64,
                    length: c.1.len() as u64,
                },
            ],
        ),
{
    let cs = seq![a, b, c];
    assert(cs.drop_first() =~= seq![b, c]);
    assert(seq![b, c].drop_first() =~= seq![c]);
    assert(seq![c].drop_first() =~= Seq::<(FourCC, Seq<u8>)>::empty());
    reveal_with_fuel(chunks_bytes, 4);
    reveal_with_fuel(extents_of, 4);
    assert(chunks_bytes(cs).len() == chunk_bytes(a.0, a.1).len() + chunk_bytes(b.0, b.1).len()
        + chunk_bytes(c.0, c.1).len());
    lemma_scan_round_trip(cs);
    assert(extents_of(cs, 12) =~= seq![
        ChunkExtent { signature: a.0, start: 20, length: a.1.len() as u64 },
        ChunkExtent {
            signature: b.0,
            start: (20 + chunk_bytes(a.0, a.1).len()) as u64,
            length: b.1.len() as u64,
        },
        ChunkExtent {
            signature: c.0,
            start: (20 + chunk_bytes(a.0, a.1).len() + chunk_bytes(b.0, b.1).len()) as u64,
            length: c.1.len() as u64,
        },
    ]);
}

/// A container of a `data` chunk followed by a `fmt ` chunk is refused as
/// out of order, though both chunks are present.
pub proof fn lemma_data_before_fmt_is_unreadable(f: Seq<u8>, d: Seq<u8>)
    requires
        f.len() + d.len() + 30 < 0x1_0000_0000,
    ensures
        readable(container(seq![(data_sig(), d), (fmt_sig(), f)])) == Err::<(), Error>(
            Error::FmtChunkAfterData,
        ),
{
    let a = (data_sig(), d);
    let b = (fmt_sig(), f);
    lemma_extents2(a, b);
    let exts = scan(container(seq![a, b])).unwrap();
    assert(exts.drop_first() =~= seq![exts[1]]);
    reveal_with_fuel(nth_with, 3);
}

proof fn lemma_minimal_of_pair(b: Seq<u8>, e0: ChunkExtent, e1: ChunkExtent)
    requires
        scan(b) == Ok::<Seq<ChunkExtent>, Error>(seq![e0, e1]),
        e0.signature == fmt_sig(),
        e1.signature == data_sig(),
        e0.start < e1.start,
    ensures
        minimal(b) == Ok::<(), Error>(()),
{
    reveal_with_fuel(nth_with, 3);
    assert(seq![e0, e1].drop_first() =~= seq![e1]);
}

proof fn lemma_not_minimal_of_triple(b: Seq<u8>, e0: ChunkExtent, e1: ChunkExtent, e2: ChunkExtent)
    requires
        scan(b) == Ok::<Seq<ChunkExtent>, Error>(seq![e0, e1, e2]),
        e0.signature == fmt_sig(),
        e1.signature == data_sig(),
        e0.start < e1.start,
    ensures
        readable(b) == Ok::<(), Error>(()),
        minimal(b) == Err::<(), Error>(Error::NotMinimalWaveFile),
{
    reveal_with_fuel(nth_with, 3);
    assert(seq![e0, e1, e2].drop_first() =~= seq![e1, e2]);
}

/// A container of exactly a `fmt ` and a `data` chunk is minimal; with a
/// `LIST` chunk after them it is still readable but no longer minimal.
pub proof fn lemma_minimal_pair(f: Seq<u8>, d: Seq<u8>, l: Seq<u8>)
    requires
        f.len() + d.len() + l.len() + 40 < 0x1_0000_0000,
    ensures
        minimal(container(seq![(fmt_sig(), f), (data_sig(), d)])) == Ok::<(), Error>(()),
        readable(container(seq![(fmt_sig(), f), (data_sig(), d), (list_sig(), l)])) == Ok::<
            (),
            Error,
        >(()),
        minimal(container(seq![(fmt_sig(), f), (data_sig(), d), (list_sig(), l)])) == Err::<
            (),
            Error,
        >(Error::NotMinimalWaveFile),
{
    let a = (fmt_sig(), f);
    let b = (data_sig(), d);
    let c = (list_sig(), l);
    lemma_extents2(a, b);
    let e2 = scan(container(seq![a, b])).unwrap();
    lemma_minimal_of_pair(container(seq![a, b]), e2[0], e2[1]);
    lemma_extents3(a, b, c);
    let e3 = scan(container(seq![a, b, c])).unwrap();
    lemma_not_minimal_of_triple(container(seq![a, b, c]), e3[0], e3[1], e3[2]);
}

proof fn lemma_append_of_triple(b: Seq<u8>, e0: ChunkExtent, e1: ChunkExtent, e2: ChunkExtent)
    requires
        scan(b) == Ok::<Seq<ChunkExtent>, Error>(seq![e0, e1, e2]),
        e0.signature == fmt_sig(),
        e1.signature == junk_sig(),
        e2.signature == data_sig(),
        e0.start < e2.start,
    ensures
        prepared_for_append(b) == if e1.length < 92 {
            Err::<(), Error>(
                Error::InsufficientDS64Reservation { expected: 92, actual: e1.length },
            )
        } else {
            Ok::<(), Error>(())
        },
{
    let s = seq![e0, e1, e2];
    reveal_with_fuel(nth_with, 3);
    reveal_with_fuel(first_pos, 3);
    reveal_with_fuel(filler_before, 3);
    assert(s.drop_first() =~= seq![e1, e2]);
    assert(seq![e1, e2].drop_first() =~= seq![e2]);
    assert(first_pos(s, data_sig()) == 2);
    assert(filler_before(s, 2) == e1.length);
}

/// With a `fmt ` chunk, then one `JUNK` filler chunk of `j.len()` bytes,
/// then `data` as the last chunk, the container is ready for appending
/// exactly when the filler reserves 92 bytes or more; otherwise the
/// shortfall is reported with the filler's size.
pub proof fn lemma_append_threshold(f: Seq<u8>, j: Seq<u8>, d: Seq<u8>)
    requires
        f.len() + j.len() + d.len() + 40 < 0x1_0000_0000,
    ensures
        prepared_for_append(container(seq![(fmt_sig(), f), (junk_sig(), j), (data_sig(), d)]))
            == if j.len() < 92 {
            Err::<(), Error>(
                Error::InsufficientDS64Reservation { expected: 92, actual: j.len() as u64 },
            )
        } else {
            Ok::<(), Error>(())
        },
{
    let a = (fmt_sig(), f);
    let b = (junk_sig(), j);
    let c = (data_sig(), d);
    lemma_extents3(a, b, c);
    let e3 = scan(container(seq![a, b, c])).unwrap();
    lemma_append_of_triple(container(seq![a, b, c]), e3[0], e3[1], e3[2]);
}

} // verus!
