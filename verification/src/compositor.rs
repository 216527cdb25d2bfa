//! The frame compositor: cuts one fixed-size cell out of a sprite sheet into
//! an owned RGBA buffer, clipping out-of-bounds sources and dropping
//! near-transparent pixels so the window shows no halos or ghosts.

use vstd::prelude::*;
use vstd::arithmetic::div_mod::lemma_fundamental_div_mod_converse;
use crate::FRAME_H;
use crate::FRAME_W;

verus! {

/// Alpha values at or below this are treated as fully transparent when a
/// frame is extracted, so anti-aliased edge pixels do not leave dark halos.
pub const ALPHA_THRESHOLD: u8 = 10;

/// An immutable grid of RGBA pixels: `4 * width * height` bytes, row-major,
/// four bytes per pixel in R, G, B, A order.
pub struct SpriteSheet {
    pub width: u32,
    pub height: u32,
    pub pixels: Vec<u8>,
}

impl SpriteSheet {
    /// The byte buffer holds exactly one RGBA quadruple per pixel.
    pub open spec fn wf(self) -> bool {
        self.pixels@.len() == 4 * self.width * self.height
    }

    /// Wraps a raw RGBA buffer, rejecting one whose length does not match
    /// the stated dimensions.
    pub fn new(width: u32, height: u32, pixels: Vec<u8>) -> (r: Option<SpriteSheet>)
        ensures
            match r {
                Some(s) => {
                    &&& s.wf()
                    &&& s.width == width
                    &&& s.height == height
                    &&& s.pixels@ == pixels@
                },
                None => pixels@.len() != 4 * width * height,
            },
    {
        proof {
            assert(4 * (width as int) * (height as int) < 0x1_0000_0000_0000_0000_0000_0000_0000_0000)
                by (nonlinear_arith)
                requires
                    width < 0x1_0000_0000,
                    height < 0x1_0000_0000,
            ;
        }
        let expected: u128 = 4u128 * (width as u128) * (height as u128);
        if (pixels.len() as u128) == expected {
            Some(SpriteSheet { width, height, pixels })
        } else {
            None
        }
    }
}

/// Byte offset of the pixel at `(sx, sy)` within a sheet's RGBA buffer.
pub open spec fn spec_src_index(sheet: SpriteSheet, sx: int, sy: int) -> int {
    4 * (sy * sheet.width + sx)
}

/// Whether the destination pixel `(x, y)` of frame cell `(col, row)` shows a
/// sheet pixel: its source must lie inside the sheet and carry alpha above
/// the threshold.
pub open spec fn spec_source_visible(sheet: SpriteSheet, col: u32, row: u32, x: int, y: int) -> bool {
    let sx = col * FRAME_W + x;
    let sy = row * FRAME_H + y;
    &&& sx < sheet.width
    &&& sy < sheet.height
    &&& sheet.pixels@[spec_src_index(sheet, sx, sy) + 3] > ALPHA_THRESHOLD
}

/// Byte `i` of the extracted frame buffer: the matching sheet byte where the
/// source pixel is visible, and zero (transparent black) everywhere else.
pub open spec fn spec_frame_byte(sheet: SpriteSheet, col: u32, row: u32, i: int) -> u8 {
    let p = i / 4;
    let c = i % 4;
    let x = p % (FRAME_W as int);
    let y = p / (FRAME_W as int);
    if spec_source_visible(sheet, col, row, x, y) {
        sheet.pixels@[spec_src_index(sheet, col * FRAME_W + x, row * FRAME_H + y) + c]
    } else {
        0
    }
}

/// The whole extracted frame: exactly `FRAME_W * FRAME_H` RGBA pixels, a
/// pure function of the sheet and the cell coordinate.
pub open spec fn spec_extracted(sheet: SpriteSheet, col: u32, row: u32) -> Seq<u8> {
    Seq::new((4 * FRAME_W * FRAME_H) as nat, |i: int| spec_frame_byte(sheet, col, row, i))
}

/// Cuts cell `(column, row)` out of the sheet into an owned RGBA buffer of
/// exactly `FRAME_W * FRAME_H` pixels, whatever the sheet's size: source
/// pixels outside the sheet, and ones at or below the alpha threshold, come
/// out as transparent black, so the buffer needs no clearing by the caller
/// and never shows a stale frame.
pub fn extract(sheet: &SpriteSheet, column: u32, row: u32) -> (frame: Vec<u8>)
    requires
        sheet.wf(),
    ensures
        frame@ == spec_extracted(*sheet, column, row),
        frame@.len() == 4 * FRAME_W * FRAME_H,
{
    let sheet_len = sheet.pixels.len();
    let mut frame: Vec<u8> = Vec::new();
    let mut p: u32 = 0;
    while p < FRAME_W * FRAME_H
        invariant
            sheet.wf(),
            sheet_len == sheet.pixels@.len(),
            p <= FRAME_W * FRAME_H,
            frame@.len() == 4 * p,
            forall|i: int| 0 <= i < 4 * p ==> frame@[i] == spec_frame_byte(*sheet, column, row, i),
        decreases FRAME_W * FRAME_H - p,
    {
        let x = p % FRAME_W;
        let y = p / FRAME_W;
        proof {
            assert((column as int) * (FRAME_W as int) + (x as int) < 0x1_0000_0000_0000_0000)
                by (nonlinear_arith)
                requires
                    column <= 0xffff_ffffu32,
                    x <= 0xffff_ffffu32,
                    FRAME_W == 124,
            ;
            assert((row as int) * (FRAME_H as int) + (y as int) < 0x1_0000_0000_0000_0000)
                by (nonlinear_arith)
                requires
                    row <= 0xffff_ffffu32,
                    y <= 0xffff_ffffu32,
                    FRAME_H == 93,
            ;
        }
        let sx: u64 = column as u64 * FRAME_W as u64 + x as u64;
        let sy: u64 = row as u64 * FRAME_H as u64 + y as u64;
        if sx < sheet.width as u64 && sy < sheet.height as u64 {
            proof {
                assert(sy * sheet.width + sx < sheet.width * sheet.height) by (nonlinear_arith)
                    requires
                        sx < sheet.width,
                        sy < sheet.height,
                ;
                assert(4 * ((sheet.width as int) * (sheet.height as int)) == sheet.pixels@.len())
                    by (nonlinear_arith)
                    requires
                        sheet.pixels@.len() == 4 * sheet.width * sheet.height,
                ;
                assert(4 * (sy * sheet.width + sx) + 3 < sheet_len);
            }
            let idx: usize = (4 * (sy * sheet.width as u64 + sx)) as usize;
            let alpha = sheet.pixels[idx + 3];
            if alpha > ALPHA_THRESHOLD {
                frame.push(sheet.pixels[idx]);
                frame.push(sheet.pixels[idx + 1]);
                frame.push(sheet.pixels[idx + 2]);
                frame.push(alpha);
            } else {
                frame.push(0);
                frame.push(0);
                frame.push(0);
                frame.push(0);
            }
        } else {
            frame.push(0);
            frame.push(0);
            frame.push(0);
            frame.push(0);
        }
        proof {
            lemma_fundamental_div_mod_converse(4 * p as int, 4, p as int, 0);
            lemma_fundamental_div_mod_converse(4 * p + 1, 4, p as int, 1);
            lemma_fundamental_div_mod_converse(4 * p + 2, 4, p as int, 2);
            lemma_fundamental_div_mod_converse(4 * p + 3, 4, p as int, 3);
        }
        p = p + 1;
    }
    proof {
        assert(frame@ =~= spec_extracted(*sheet, column, row));
    }
    frame
}

/// Word `p` of a packed frame: red in bits 16 to 23, green in 8 to 15, blue
/// in 0 to 7, and nothing above — the `0x00RRGGBB` layout.
pub open spec fn spec_packed_0rgb(bytes: Seq<u8>, p: int) -> u32 {
    (0x10000 * bytes[4 * p] + 0x100 * bytes[4 * p + 1] + bytes[4 * p + 2]) as u32
}

/// Packs an RGBA buffer into one `0x00RRGGBB` word per pixel, the layout
/// software render surfaces take. Alpha is dropped: pixels an extracted
/// frame left transparent are all-zero and pack to zero words.
pub fn pack_frame_0rgb(frame: &Vec<u8>) -> (words: Vec<u32>)
    requires
        frame@.len() % 4 == 0,
    ensures
        words@.len() == frame@.len() / 4,
        forall|p: int| 0 <= p < words@.len() ==> words@[p] == spec_packed_0rgb(frame@, p),
{
    let n = frame.len() / 4;
    proof {
        assert(4 * n == frame@.len());
    }
    let mut words: Vec<u32> = Vec::new();
    let mut p: usize = 0;
    while p < n
        invariant
            4 * n == frame@.len(),
            frame@.len() <= usize::MAX,
            p <= n,
            words@.len() == p,
            forall|q: int| 0 <= q < p ==> words@[q] == spec_packed_0rgb(frame@, q),
        decreases n - p,
    {
        let r = frame[4 * p];
        let g = frame[4 * p + 1];
        let b = frame[4 * p + 2];
        words.push(0x10000 * (r as u32) + 0x100 * (g as u32) + (b as u32));
        p = p + 1;
    }
    words
}

/// Extraction has no hidden state: any two buffers extracted from the same
/// sheet at the same cell are identical, byte for byte.
pub proof fn lemma_extract_deterministic(
    sheet: SpriteSheet,
    col: u32,
    row: u32,
    frame1: Seq<u8>,
    frame2: Seq<u8>,
)
    requires
        frame1 == spec_extracted(sheet, col, row),
        frame2 == spec_extracted(sheet, col, row),
    ensures
        frame1 == frame2,
{
}

} // verus!
