use vstd::prelude::*;

verus! {

/// The value a decoded RGBA pixel contributes to the generated array: the
/// red, green and blue bytes packed little-endian into the low 24 bits of a
/// 32-bit word. The alpha byte is dropped, not blended.
pub open spec fn pixel_value(r: u8, g: u8, b: u8) -> u32 {
    (r + g * 0x100 + b * 0x10000) as u32
}

/// The pixel array obtained by packing a raw RGBA byte buffer (four bytes
/// per pixel, row-major) pixel by pixel.
pub open spec fn encoded_pixels(raw: Seq<u8>) -> Seq<u32>
    recommends
        raw.len() % 4 == 0,
{
    Seq::new((raw.len() / 4) as nat, |i: int| pixel_value(raw[4 * i], raw[4 * i + 1], raw[4 * i + 2]))
}

/// Pack one RGBA pixel into its 24-bit RGB value. Total for every input;
/// the alpha channel never influences the result.
pub fn encode_pixel(r: u8, g: u8, b: u8, a: u8) -> (v: u32)
    ensures
        v == pixel_value(r, g, b),
        v < 0x1000000,
{
    r as u32 + g as u32 * 0x100 + b as u32 * 0x10000
}

/// Pack a whole raw RGBA buffer into its pixel array.
pub fn encode_pixels(raw: &Vec<u8>) -> (out: Vec<u32>)
    requires
        raw@.len() % 4 == 0,
    ensures
        out@ == encoded_pixels(raw@),
        out@.len() == raw@.len() / 4,
{
    let len: usize = raw.len();
    let mut out: Vec<u32> = Vec::new();
    let mut j: usize = 0;
    while j < len
        invariant
            len == raw@.len(),
            raw@.len() % 4 == 0,
            j % 4 == 0,
            j <= len,
            out@.len() == j / 4,
            forall|k: int|
                0 <= k < j / 4 ==> out@[k] == pixel_value(
                    raw@[4 * k],
                    raw@[4 * k + 1],
                    raw@[4 * k + 2],
                ),
        decreases len - j,
    {
        proof {
            assert((len - j) % 4 == 0);
            assert(j + 4 <= len);
            assert(j == 4 * (j / 4));
        }
        let v = encode_pixel(raw[j], raw[j + 1], raw[j + 2], raw[j + 3]);
        out.push(v);
        j = j + 4;
    }
    proof {
        assert(out@ =~= encoded_pixels(raw@));
    }
    out
}

/// The packed value is exactly the four channel bytes assembled into a
/// little-endian 32-bit word with its top eight bits — the alpha byte —
/// masked off.
pub proof fn lemma_pixel_value_masks_le_word(r: u8, g: u8, b: u8, a: u8)
    ensures
        pixel_value(r, g, b) == (((r as u32) | ((g as u32) << 8) | ((b as u32) << 16) | ((
        a as u32) << 24)) & 0xFFFFFF),
{
    assert((((r as u32) | ((g as u32) << 8) | ((b as u32) << 16) | ((a as u32) << 24)) & 0xFFFFFF)
        == ((r as u32) + (g as u32) * 0x100 + (b as u32) * 0x10000)) by (bit_vector);
}

/// Pixel encoding is alpha-blind: two raw RGBA buffers of the same length
/// that agree on every red, green and blue byte encode to the same pixel
/// array, whatever their alpha bytes hold.
pub proof fn lemma_encoding_alpha_blind(raw1: Seq<u8>, raw2: Seq<u8>)
    requires
        raw1.len() == raw2.len(),
        raw1.len() % 4 == 0,
        forall|i: int| 0 <= i < raw1.len() && i % 4 != 3 ==> raw1[i] == raw2[i],
    ensures
        encoded_pixels(raw1) == encoded_pixels(raw2),
{
    assert forall|i: int| 0 <= i < raw1.len() / 4 implies encoded_pixels(raw1)[i] == encoded_pixels(
        raw2,
    )[i] by {
        assert((4 * i) % 4 == 0 && (4 * i + 1) % 4 == 1 && (4 * i + 2) % 4 == 2) by (nonlinear_arith);
    }
    assert(encoded_pixels(raw1) =~= encoded_pixels(raw2));
}

} // verus!
