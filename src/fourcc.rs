//! Four-byte chunk signatures.

use vstd::prelude::*;


verus! {

/// A four-byte chunk identifier; two are equal when their bytes are.
#[derive(Clone, Copy, Debug, PartialEq, Eq, Structural)]
pub struct FourCC {
    pub b0: u8,
    pub b1: u8,
    pub b2: u8,
    pub b3: u8,
}

impl FourCC {
    pub open spec fn spec_new(b0: u8, b1: u8, b2: u8, b3: u8) -> FourCC {
        FourCC { b0, b1, b2, b3 }
    }

    /// The signature made of four bytes, in stream order.
    #[verifier::when_used_as_spec(spec_new)]
    pub fn new(b0: u8, b1: u8, b2: u8, b3: u8) -> (r: FourCC)
        ensures
            r == FourCC::spec_new(b0, b1, b2, b3),
    {
        FourCC { b0, b1, b2, b3 }
    }

    /// The four bytes of the signature, in stream order.
    pub fn to_bytes(&self) -> (r: [u8; 4])
        ensures
            r@ == seq![self.b0, self.b1, self.b2, self.b3],
    {
        let r = [self.b0, self.b1, self.b2, self.b3];
        assert(r@ =~= seq![self.b0, self.b1, self.b2, self.b3]);
        r
    }
}

/// The signature stored at `p` in `s`.
pub open spec fn fourcc_at(s: Seq<u8>, p: int) -> FourCC {
    FourCC { b0: s[p], b1: s[p + 1], b2: s[p + 2], b3: s[p + 3] }
}

pub fn read_fourcc(s: &Vec<u8>, p: usize) -> (r: FourCC)
    requires
        p + 4 <= s@.len(),
    ensures
        r == fourcc_at(s@, p as int),
{
    let n = s.len();
    assert(p + 3 < n);
    FourCC { b0: s[p], b1: s[p + 1], b2: s[p + 2], b3: s[p + 3] }
}

pub open spec fn spec_riff_sig() -> FourCC { FourCC::spec_new(0x52, 0x49, 0x46, 0x46) }
pub open spec fn spec_rf64_sig() -> FourCC { FourCC::spec_new(0x52, 0x46, 0x36, 0x34) }
pub open spec fn spec_bw64_sig() -> FourCC { FourCC::spec_new(0x42, 0x57, 0x36, 0x34) }
pub open spec fn spec_wave_sig() -> FourCC { FourCC::spec_new(0x57, 0x41, 0x56, 0x45) }
pub open spec fn spec_ds64_sig() -> FourCC { FourCC::spec_new(0x64, 0x73, 0x36, 0x34) }
pub open spec fn spec_fmt_sig() -> FourCC { FourCC::spec_new(0x66, 0x6d, 0x74, 0x20) }
pub open spec fn spec_data_sig() -> FourCC { FourCC::spec_new(0x64, 0x61, 0x74, 0x61) }
pub open spec fn spec_bext_sig() -> FourCC { FourCC::spec_new(0x62, 0x65, 0x78, 0x74) }
pub open spec fn spec_junk_sig() -> FourCC { FourCC::spec_new(0x4a, 0x55, 0x4e, 0x4b) }
pub open spec fn spec_fllr_sig() -> FourCC { FourCC::spec_new(0x46, 0x4c, 0x4c, 0x52) }
pub open spec fn spec_list_sig() -> FourCC { FourCC::spec_new(0x4c, 0x49, 0x53, 0x54) }

/// `RIFF`: the form signature of a classic container.
#[verifier::when_used_as_spec(spec_riff_sig)]
pub fn riff_sig() -> (r: FourCC) ensures r == spec_riff_sig() { FourCC::new(0x52, 0x49, 0x46, 0x46) }

/// `RF64`: the form signature of a 64-bit container.
#[verifier::when_used_as_spec(spec_rf64_sig)]
pub fn rf64_sig() -> (r: FourCC) ensures r == spec_rf64_sig() { FourCC::new(0x52, 0x46, 0x36, 0x34) }

/// `BW64`: the form signature of a 64-bit broadcast container.
#[verifier::when_used_as_spec(spec_bw64_sig)]
pub fn bw64_sig() -> (r: FourCC) ensures r == spec_bw64_sig() { FourCC::new(0x42, 0x57, 0x36, 0x34) }

/// `WAVE`: the format signature of the outer header.
#[verifier::when_used_as_spec(spec_wave_sig)]
pub fn wave_sig() -> (r: FourCC) ensures r == spec_wave_sig() { FourCC::new(0x57, 0x41, 0x56, 0x45) }

/// `ds64`: the 64-bit size table.
#[verifier::when_used_as_spec(spec_ds64_sig)]
pub fn ds64_sig() -> (r: FourCC) ensures r == spec_ds64_sig() { FourCC::new(0x64, 0x73, 0x36, 0x34) }

/// `fmt `: the sample format.
#[verifier::when_used_as_spec(spec_fmt_sig)]
pub fn fmt_sig() -> (r: FourCC) ensures r == spec_fmt_sig() { FourCC::new(0x66, 0x6d, 0x74, 0x20) }

/// `data`: the audio payload.
#[verifier::when_used_as_spec(spec_data_sig)]
pub fn data_sig() -> (r: FourCC) ensures r == spec_data_sig() { FourCC::new(0x64, 0x61, 0x74, 0x61) }

/// `bext`: the broadcast metadata record.
#[verifier::when_used_as_spec(spec_bext_sig)]
pub fn bext_sig() -> (r: FourCC) ensures r == spec_bext_sig() { FourCC::new(0x62, 0x65, 0x78, 0x74) }

/// `JUNK`: a filler chunk.
#[verifier::when_used_as_spec(spec_junk_sig)]
pub fn junk_sig() -> (r: FourCC) ensures r == spec_junk_sig() { FourCC::new(0x4a, 0x55, 0x4e, 0x4b) }

/// `FLLR`: a filler chunk.
#[verifier::when_used_as_spec(spec_fllr_sig)]
pub fn fllr_sig() -> (r: FourCC) ensures r == spec_fllr_sig() { FourCC::new(0x46, 0x4c, 0x4c, 0x52) }

/// `LIST`: a list of metadata sub-chunks.
#[verifier::when_used_as_spec(spec_list_sig)]
pub fn list_sig() -> (r: FourCC) ensures r == spec_list_sig() { FourCC::new(0x4c, 0x49, 0x53, 0x54) }

} // verus!
