//! 4-bit alpha bitmaps (two pixels per byte, high nibble first).
use vstd::prelude::*;

verus! {

/// A coverage mask: `width * height` pixels, row-major, each a 4-bit alpha
/// value, packed two per byte with the even pixel in the high nibble.
#[derive(Debug, Clone)]
pub struct AlphaBitmap {
    pub width: u16,
    pub height: u16,
    pub data: Vec<u8>,
}

/// Alpha of pixel number `index` (row-major) in packed nibble data.
pub open spec fn nibble_at(data: Seq<u8>, index: int) -> u8 {
    if index % 2 == 0 {
        (data[index / 2] / 16) as u8
    } else {
        (data[index / 2] % 16) as u8
    }
}

/// Alpha of pixel (`x`, `y`) of a bitmap `width` pixels wide.
pub open spec fn alpha_at(data: Seq<u8>, width: int, x: int, y: int) -> u8 {
    nibble_at(data, y * width + x)
}

/// Whether pixel (`x`, `y`) of `bitmap` has its nibble in the data.
pub open spec fn pixel_stored(bitmap: &AlphaBitmap, x: int, y: int) -> bool {
    y * bitmap.width + x < 2 * bitmap.data@.len()
}

/// The 4-bit alpha of pixel (`x`, `y`): the high nibble of byte `i / 2` for
/// an even pixel index `i = y * width + x`, the low nibble for an odd one.
pub fn bitmap_alpha(bitmap: &AlphaBitmap, x: u16, y: u16) -> (alpha: u8)
    requires
        pixel_stored(bitmap, x as int, y as int),
    ensures
        alpha == alpha_at(bitmap.data@, bitmap.width as int, x as int, y as int),
        alpha < 16,
{
    proof {
        assert(y as int * bitmap.width as int <= 65535 * 65535) by (nonlinear_arith)
            requires
                y <= 65535,
                bitmap.width <= 65535,
        ;
    }
    let index = y as usize * bitmap.width as usize + x as usize;
    let byte = bitmap.data[index / 2];
    if index % 2 == 0 {
        proof {
            assert(byte >> 4u8 == byte / 16) by (bit_vector);
        }
        byte >> 4
    } else {
        proof {
            assert(byte & 0x0Fu8 == byte % 16) by (bit_vector);
        }
        byte & 0x0F
    }
}

} // verus!
