//! The checkerboard of colours with which a surface is painted while its
//! mapping is being worked on.

use vstd::prelude::*;

verus! {

/// Width and height of the texture, in texels.
pub const TEXTURE_SIZE: usize = 8;

/// Eight colours, four bytes each: red, green, blue, opacity.
pub open spec fn palette() -> Seq<u8> {
    seq![
        255u8, 102, 159, 255, 255, 159, 102, 255, 236, 255, 102, 255, 121, 255, 102, 255, 102, 255,
        198, 255, 102, 198, 255, 255, 121, 102, 255, 255, 236, 102, 255, 255,
    ]
}

/// The byte at place `i` of the texture. Each row holds the palette, turned
/// one colour further to the right than the row above.
pub open spec fn texture_byte(i: int) -> u8 {
    let row = i / 32;
    let column = i % 32;
    palette()[(column + 32 - 4 * row) % 32]
}

fn palette_bytes() -> (p: [u8; 32])
    ensures
        p@ == palette(),
{
    let p: [u8; 32] = [
        255, 102, 159, 255, 255, 159, 102, 255, 236, 255, 102, 255, 121, 255, 102, 255, 102, 255,
        198, 255, 102, 198, 255, 255, 121, 102, 255, 255, 236, 102, 255, 255,
    ];
    assert(p@ =~= palette());
    p
}

/// The bytes of the texture, row by row.
pub fn uv_debug_texture() -> (data: Vec<u8>)
    ensures
        data.len() == TEXTURE_SIZE * TEXTURE_SIZE * 4,
        forall|i: int| 0 <= i < data.len() ==> #[trigger] data[i] == texture_byte(i),
{
    let colours: [u8; 32] = palette_bytes();
    let mut data: Vec<u8> = Vec::new();
    let mut y: usize = 0;
    while y < TEXTURE_SIZE
        invariant
            0 <= y <= TEXTURE_SIZE,
            colours@ == palette(),
            data.len() == y * 32,
            forall|i: int| 0 <= i < data.len() ==> #[trigger] data[i] == texture_byte(i),
        decreases TEXTURE_SIZE - y,
    {
        let mut k: usize = 0;
        while k < 32
            invariant
                0 <= k <= 32,
                0 <= y < TEXTURE_SIZE,
                colours@ == palette(),
                data.len() == y * 32 + k,
                forall|i: int| 0 <= i < data.len() ==> #[trigger] data[i] == texture_byte(i),
            decreases 32 - k,
        {
            let from: usize = (k + 32 - 4 * y) % 32;
            data.push(colours[from]);
            k = k + 1;
        }
        y = y + 1;
    }
    data
}

} // verus!
