//! Bitmap encoding.
//!
//! Serializes a frame buffer into an uncompressed 24-bit bitmap: a 14-byte
//! file header with the `BM` signature and the 54-byte pixel offset, a
//! 40-byte info header carrying the dimensions, then the pixels in their
//! in-memory top-to-bottom row order, stored `B,G,R` per the bitmap
//! convention.  The size and resolution fields are left zero.

use vstd::prelude::*;
use vstd::arithmetic::div_mod::lemma_fundamental_div_mod_converse;
use crate::render::{Frame, Pixel};
use crate::viewport::MAX_DIM;

verus! {

/// The four little-endian bytes of a 32-bit value.
pub open spec fn le_bytes32(v: int) -> Seq<u8> {
    seq![
        (v % 256) as u8,
        ((v / 256) % 256) as u8,
        ((v / 65536) % 256) as u8,
        ((v / 16777216) % 256) as u8,
    ]
}

/// The 54 header bytes of a bitmap of the given dimensions.
pub open spec fn bmp_header_spec(width: int, height: int) -> Seq<u8> {
    seq![
        66u8, 77u8, 0u8, 0u8, 0u8, 0u8, 0u8, 0u8, 0u8, 0u8, 54u8, 0u8, 0u8, 0u8, 40u8, 0u8,
        0u8, 0u8,
    ] + le_bytes32(width) + le_bytes32(height) + seq![1u8, 0u8, 24u8, 0u8] + seq![
        0u8, 0u8, 0u8, 0u8, 0u8, 0u8, 0u8, 0u8, 0u8, 0u8, 0u8, 0u8, 0u8, 0u8, 0u8, 0u8, 0u8,
        0u8, 0u8, 0u8, 0u8, 0u8, 0u8, 0u8,
    ]
}

/// The pixel bytes: three per pixel, blue then green then red.
pub open spec fn bmp_body_spec(pixels: Seq<Pixel>) -> Seq<u8> {
    Seq::new(
        (3 * pixels.len()) as nat,
        |k: int|
            {
                let p = pixels[k / 3];
                if k % 3 == 0 {
                    p.b
                } else if k % 3 == 1 {
                    p.g
                } else {
                    p.r
                }
            },
    )
}

/// The complete bitmap file image of a frame.
pub open spec fn bmp_spec(width: int, height: int, pixels: Seq<Pixel>) -> Seq<u8> {
    bmp_header_spec(width, height) + bmp_body_spec(pixels)
}

/// Append the four little-endian bytes of a 32-bit value.
fn push_le32(bytes: &mut Vec<u8>, v: u32)
    ensures
        final(bytes)@ == old(bytes)@ + le_bytes32(v as int),
{
    bytes.push((v % 256) as u8);
    bytes.push((v / 256 % 256) as u8);
    bytes.push((v / 65536 % 256) as u8);
    bytes.push((v / 16777216 % 256) as u8);
    proof {
        assert(bytes@ =~= old(bytes)@ + le_bytes32(v as int));
    }
}

/// Serialize a frame into the byte image of its bitmap file.
pub fn bitmap_bytes(frame: &Frame) -> (bytes: Vec<u8>)
    requires
        frame.well_formed(),
        frame.width <= MAX_DIM,
        frame.height <= MAX_DIM,
    ensures
        bytes@ == bmp_spec(frame.width as int, frame.height as int, frame.pixels@),
        bytes@.len() == 54 + 3 * frame.pixels@.len(),
{
    let ghost header = bmp_header_spec(frame.width as int, frame.height as int);
    let mut bytes: Vec<u8> = Vec::new();
    bytes.push(66);
    bytes.push(77);
    let mut pad: usize = 0;
    while pad < 8
        invariant
            2 <= bytes@.len() == 2 + pad,
            pad <= 8,
            bytes@[0] == 66u8,
            bytes@[1] == 77u8,
            forall|j: int| 2 <= j < bytes@.len() ==> bytes@[j] == 0u8,
        decreases 8 - pad,
    {
        bytes.push(0);
        pad = pad + 1;
    }
    bytes.push(54);
    bytes.push(0);
    bytes.push(0);
    bytes.push(0);
    bytes.push(40);
    bytes.push(0);
    bytes.push(0);
    bytes.push(0);
    proof {
        assert(bytes@ =~= seq![
            66u8, 77u8, 0u8, 0u8, 0u8, 0u8, 0u8, 0u8, 0u8, 0u8, 54u8, 0u8, 0u8, 0u8, 40u8,
            0u8, 0u8, 0u8,
        ]);
    }
    push_le32(&mut bytes, frame.width);
    push_le32(&mut bytes, frame.height);
    bytes.push(1);
    bytes.push(0);
    bytes.push(24);
    bytes.push(0);
    proof {
        assert(bytes@ =~= seq![
            66u8, 77u8, 0u8, 0u8, 0u8, 0u8, 0u8, 0u8, 0u8, 0u8, 54u8, 0u8, 0u8, 0u8, 40u8,
            0u8, 0u8, 0u8,
        ] + le_bytes32(frame.width as int) + le_bytes32(frame.height as int) + seq![
            1u8, 0u8, 24u8, 0u8,
        ]);
    }
    let ghost pre = bytes@;
    let mut pad2: usize = 0;
    while pad2 < 24
        invariant
            bytes@.len() == pre.len() + pad2,
            pad2 <= 24,
            forall|j: int| 0 <= j < pre.len() ==> bytes@[j] == pre[j],
            forall|j: int| pre.len() <= j < bytes@.len() ==> bytes@[j] == 0u8,
        decreases 24 - pad2,
    {
        bytes.push(0);
        pad2 = pad2 + 1;
    }
    proof {
        assert(bytes@ =~= header);
    }
    let n = frame.pixels.len();
    let mut i: usize = 0;
    while i < n
        invariant
            n == frame.pixels@.len(),
            i <= n,
            bytes@.len() == 54 + 3 * i,
            bytes@ == header + bmp_body_spec(frame.pixels@.take(i as int)),
            header == bmp_header_spec(frame.width as int, frame.height as int),
            header.len() == 54,
        decreases n - i,
    {
        let p = frame.pixels[i];
        bytes.push(p.b);
        bytes.push(p.g);
        bytes.push(p.r);
        proof {
            lemma_fundamental_div_mod_converse(3 * (i as int), 3, i as int, 0);
            lemma_fundamental_div_mod_converse(3 * (i as int) + 1, 3, i as int, 1);
            lemma_fundamental_div_mod_converse(3 * (i as int) + 2, 3, i as int, 2);
            assert(bytes@ =~= header + bmp_body_spec(frame.pixels@.take(i as int + 1)));
        }
        i = i + 1;
    }
    proof {
        assert(frame.pixels@.take(n as int) =~= frame.pixels@);
    }
    bytes
}

} // verus!
