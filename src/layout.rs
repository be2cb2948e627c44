//! How a classic container is written out from a list of chunks, and the
//! law that the scanner reads such a container back chunk for chunk.

use vstd::prelude::*;

use crate::bytes::u32_le;
use crate::fourcc::{fourcc_at, FourCC};
use crate::parser::{is_rf64, scan, scan_from, ChunkExtent, HEADER_LEN};

verus! {

/// The four little-endian bytes of `n`, for `n < 2^32`.
pub open spec fn le32(n: nat) -> Seq<u8> {
    seq![
        (n % 256) as u8,
        (n / 256 % 256) as u8,
        (n / 256 / 256 % 256) as u8,
        (n / 256 / 256 / 256 % 256) as u8,
    ]
}

pub open spec fn sig_bytes(sig: FourCC) -> Seq<u8> {
    seq![sig.b0, sig.b1, sig.b2, sig.b3]
}

/// One chunk on disk: signature, 32-bit length, payload, and one pad byte
/// after a payload of odd length.
pub open spec fn chunk_bytes(sig: FourCC, payload: Seq<u8>) -> Seq<u8> {
    sig_bytes(sig) + le32(payload.len()) + payload + if payload.len() % 2 == 1 {
        seq![0u8]
    } else {
        Seq::<u8>::empty()
    }
}

/// The chunks of `cs`, one after the other.
pub open spec fn chunks_bytes(cs: Seq<(FourCC, Seq<u8>)>) -> Seq<u8>
    decreases cs.len(),
{
    if cs.len() == 0 {
        Seq::<u8>::empty()
    } else {
        chunk_bytes(cs[0].0, cs[0].1) + chunks_bytes(cs.drop_first())
    }
}

/// A classic `RIFF`/`WAVE` container holding the chunks of `cs`.
pub open spec fn container(cs: Seq<(FourCC, Seq<u8>)>) -> Seq<u8> {
    let body = chunks_bytes(cs);
    sig_bytes(FourCC::spec_new(0x52, 0x49, 0x46, 0x46)) + le32(body.len() + 4) + sig_bytes(
        FourCC::spec_new(0x57, 0x41, 0x56, 0x45),
    ) + body
}

/// The extents of the chunks of `cs` when the first header is at `pos`.
pub open spec fn extents_of(cs: Seq<(FourCC, Seq<u8>)>, pos: int) -> Seq<ChunkExtent>
    decreases cs.len(),
{
    if cs.len() == 0 {
        Seq::<ChunkExtent>::empty()
    } else {
        seq![ChunkExtent { signature: cs[0].0, start: (pos + 8) as u64, length: cs[0].1.len() as u64 }]
            + extents_of(cs.drop_first(), pos + chunk_bytes(cs[0].0, cs[0].1).len())
    }
}

proof fn lemma_le32(s: Seq<u8>, p: int, n: nat)
    requires
        n < 0x1_0000_0000,
        0 <= p,
        p + 4 <= s.len(),
        s.subrange(p, p + 4) == le32(n),
    ensures
        u32_le(s, p) == n,
{
    assert(s[p] == le32(n)[0]);
    assert(s[p + 1] == le32(n)[1]);
    assert(s[p + 2] == le32(n)[2]);
    assert(s[p + 3] == le32(n)[3]);
}

proof fn lemma_chunks_len(cs: Seq<(FourCC, Seq<u8>)>)
    ensures
        cs.len() > 0 ==> chunks_bytes(cs).len() >= 8,
    decreases cs.len(),
{
}

proof fn lemma_scan_chunks(pre: Seq<u8>, cs: Seq<(FourCC, Seq<u8>)>, riff_size: int)
    requires
        pre.len() >= 12,
        !is_rf64(pre + chunks_bytes(cs)),
        (pre + chunks_bytes(cs)).len() <= 8 + riff_size,
        (pre + chunks_bytes(cs)).len() < 0x1_0000_0000,
    ensures
        scan_from(pre + chunks_bytes(cs), false, pre.len() as int, riff_size, None) == Ok::<
            Seq<ChunkExtent>,
            crate::errors::Error,
        >(extents_of(cs, pre.len() as int)),
    decreases cs.len(),
{
    let s = pre + chunks_bytes(cs);
    let pos = pre.len() as int;
    if cs.len() == 0 {
        assert(s =~= pre);
    } else {
        let c = cs[0];
        let cb = chunk_bytes(c.0, c.1);
        let rest = cs.drop_first();
        let pre2 = pre + cb;
        assert(s =~= pre2 + chunks_bytes(rest));
        let n = c.1.len();
        assert(cb.subrange(0, 4) =~= sig_bytes(c.0));
        assert(cb.subrange(4, 8) =~= le32(n));
        assert(s.subrange(pos + 4, pos + 8) =~= le32(n));
        assert(s[pos] == cb[0] && s[pos + 1] == cb[1] && s[pos + 2] == cb[2] && s[pos + 3] == cb[3]);
        assert(fourcc_at(s, pos) == c.0);
        lemma_le32(s, pos + 4, n);
        assert(u32_le(s, pos + 4) == n);
        let next = pos + 8 + n + n % 2;
        assert(next == pre2.len());
        lemma_scan_chunks(pre2, rest, riff_size);
        lemma_chunks_len(rest);
        assert(pre2 + chunks_bytes(rest) =~= s);
        if rest.len() == 0 {
            assert(extents_of(rest, next) =~= Seq::<ChunkExtent>::empty());
            assert(extents_of(cs, pos) =~= seq![extents_of(cs, pos)[0]]);
        }
    }
}

/// The scanner reads a classic container back as the chunks it was written
/// from: one extent per chunk, in order, with each signature and payload
/// length, and each start just past its header, odd payloads' pad bytes
/// skipped. The container's 32-bit size field bounds what can be written.
pub proof fn lemma_scan_round_trip(cs: Seq<(FourCC, Seq<u8>)>)
    requires
        chunks_bytes(cs).len() + 12 < 0x1_0000_0000,
    ensures
        scan(container(cs)) == Ok::<Seq<ChunkExtent>, crate::errors::Error>(
            extents_of(cs, HEADER_LEN as int),
        ),
{
    let body = chunks_bytes(cs);
    let s = container(cs);
    let pre = s.subrange(0, 12);
    assert(s =~= pre + body);
    assert(s.subrange(4, 8) =~= le32(body.len() + 4));
    lemma_le32(s, 4, (body.len() + 4) as nat);
    assert(!is_rf64(s)) by {
        assert(s[0] == 0x52u8 && s[1] == 0x49u8);
    }
    lemma_scan_chunks(pre, cs, u32_le(s, 4));
}

} // verus!
