//! Layout of texture readback: GPU copies rows padded to the copy alignment,
//! and the CPU strips that padding to recover tightly packed RGBA8 pixels.

use vstd::arithmetic::div_mod::lemma_fundamental_div_mod_converse;
use vstd::prelude::*;

verus! {

/// The row pitch alignment that texture-to-buffer copies require, in bytes.
pub open spec fn copy_alignment() -> int {
    256
}

/// `wgpu::COPY_BYTES_PER_ROW_ALIGNMENT`, which wgpu documents and defines as 256 bytes.
#[verifier::external_body]
fn copy_bytes_per_row_alignment() -> (alignment: u32)
    ensures
        alignment == copy_alignment(),
{
    wgpu::COPY_BYTES_PER_ROW_ALIGNMENT
}

/// Tightly packed bytes per row of RGBA8 pixels.
pub open spec fn row_bytes_spec(width: int) -> int {
    4 * width
}

/// Row pitch of the readback buffer: the packed row size rounded up to the copy alignment.
pub open spec fn padded_row_spec(width: int) -> int {
    (row_bytes_spec(width) + copy_alignment() - 1) / copy_alignment() * copy_alignment()
}

/// Packed and padded row sizes, in bytes, for an RGBA8 readback of `width` pixels.
pub fn readback_rows(width: u32) -> (rows: (u32, u32))
    requires
        4 * width + 255 <= u32::MAX,
    ensures
        rows.0 == row_bytes_spec(width as int),
        rows.1 == padded_row_spec(width as int),
        (rows.1 as int) % copy_alignment() == 0,
        rows.0 <= rows.1 < rows.0 + copy_alignment(),
{
    let alignment = copy_bytes_per_row_alignment();
    let row_bytes = width * 4;
    let blocks = row_bytes / alignment + if row_bytes % alignment != 0 {
        1
    } else {
        0
    };
    proof {
        let r = row_bytes as int;
        let q = (r + 255) / 256;
        assert(blocks == q) by (nonlinear_arith)
            requires
                blocks == r / 256 + if r % 256 != 0 {
                    1int
                } else {
                    0
                },
                q == (r + 255) / 256,
                r >= 0,
        ;
        assert(q * 256 <= r + 255 < q * 256 + 256) by (nonlinear_arith)
            requires
                q == (r + 255) / 256,
                r >= 0,
        ;
        assert((q * 256) % 256 == 0) by (nonlinear_arith)
            requires
                q >= 0,
        ;
    }
    let padded = blocks * alignment;
    (row_bytes, padded)
}

/// Byte `i` of the packed image: byte `i % row` of row `i / row` of the padded buffer.
pub open spec fn unpadded_byte(mapped: Seq<u8>, row_bytes: int, padded_row: int, i: int) -> u8 {
    mapped[(i / row_bytes) * padded_row + i % row_bytes]
}

/// Copy the first `row_bytes` of each of `height` rows of pitch `padded_row`,
/// yielding `row_bytes * height` packed bytes.
pub fn strip_row_padding(mapped: &[u8], row_bytes: u32, padded_row: u32, height: u32) -> (pixels:
    Vec<u8>)
    requires
        row_bytes <= padded_row,
        0 < padded_row,
        mapped@.len() == padded_row * height,
    ensures
        pixels@.len() == row_bytes * height,
        forall|i: int|
            0 <= i < pixels@.len() ==> pixels@[i] == unpadded_byte(
                mapped@,
                row_bytes as int,
                padded_row as int,
                i,
            ),
{
    let ghost row = row_bytes as int;
    let ghost pitch = padded_row as int;
    let total = mapped.len();
    let mut pixels: Vec<u8> = Vec::new();
    let mut r: u32 = 0;
    while r < height
        invariant
            0 <= r <= height,
            0 <= row <= pitch,
            0 < pitch,
            row == row_bytes,
            pitch == padded_row,
            mapped@.len() == pitch * height,
            total == mapped@.len(),
            pixels@.len() == row * r,
            forall|i: int|
                0 <= i < pixels@.len() ==> pixels@[i] == unpadded_byte(mapped@, row, pitch, i),
        decreases height - r,
    {
        proof {
            assert(pitch * r + pitch <= pitch * height) by (nonlinear_arith)
                requires
                    r < height,
                    0 <= pitch,
            ;
            assert(row * r + row == row * (r + 1)) by (nonlinear_arith);
        }
        let base = (padded_row as usize) * (r as usize);
        let mut c: u32 = 0;
        while c < row_bytes
            invariant
                0 <= r < height,
                0 <= c <= row_bytes,
                0 <= row <= pitch,
                0 < pitch,
                row == row_bytes,
                pitch == padded_row,
                base == pitch * r,
                pitch * r + pitch <= pitch * height,
                mapped@.len() == pitch * height,
                total == mapped@.len(),
                pixels@.len() == row * r + c,
                forall|i: int|
                    0 <= i < pixels@.len() ==> pixels@[i] == unpadded_byte(mapped@, row, pitch, i),
            decreases row_bytes - c,
        {
            let byte = mapped[base + c as usize];
            proof {
                let i = row * r + c;
                lemma_fundamental_div_mod_converse(i, row, r as int, c as int);
                assert(pitch * r == r * pitch) by (nonlinear_arith);
            }
            pixels.push(byte);
            c = c + 1;
        }
        r = r + 1;
    }
    pixels
}

/// Stripping keeps exactly the packed prefix of every row: byte `c` of row `r` of the packed
/// image is byte `c` of row `r` of the padded buffer, and padding bytes never appear.
pub proof fn lemma_unpadded_pixels_come_from_their_rows(
    mapped: Seq<u8>,
    row_bytes: int,
    padded_row: int,
    r: int,
    c: int,
)
    requires
        0 <= c < row_bytes <= padded_row,
        0 <= r,
    ensures
        unpadded_byte(mapped, row_bytes, padded_row, r * row_bytes + c) == mapped[r * padded_row
            + c],
{
    lemma_fundamental_div_mod_converse(r * row_bytes + c, row_bytes, r, c);
}

} // verus!
