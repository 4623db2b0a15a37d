//! Colour lookup tables for the cell values, and the packing of colours into 32-bit words.

use vstd::prelude::*;

verus! {

/// The colour word for the channels `r`, `g`, `b` and `a`, laid out as the little-endian bytes
/// `[r, g, b, a]` (`0xAABBGGRR`).
pub open spec fn spec_pack_rgba(r: u8, g: u8, b: u8, a: u8) -> int {
    r + 256 * g + 65536 * b + 16777216 * a
}

/// The little-endian bytes of a colour word: red, green, blue and alpha.
pub open spec fn spec_unpack_rgba(color: u32) -> Seq<u8> {
    seq![
        (color % 256) as u8,
        (color / 256 % 256) as u8,
        (color / 65536 % 256) as u8,
        (color / 16777216) as u8,
    ]
}

/// Packs the channels into a colour word whose little-endian bytes are `[r, g, b, a]`.
pub fn pack_rgba(r: u8, g: u8, b: u8, a: u8) -> (color: u32)
    ensures
        color == spec_pack_rgba(r, g, b, a),
{
    (r as u32) + (g as u32) * 256 + (b as u32) * 65536 + (a as u32) * 16777216
}

/// The little-endian bytes of a colour word: red, green, blue and alpha.
pub fn unpack_rgba(color: u32) -> (bytes: [u8; 4])
    ensures
        bytes@ == spec_unpack_rgba(color),
{
    let bytes = [
        (color % 256) as u8,
        (color / 256 % 256) as u8,
        (color / 65536 % 256) as u8,
        (color / 16777216) as u8,
    ];
    proof {
        broadcast use vstd::array::group_array_axioms;

        assert(bytes@ =~= spec_unpack_rgba(color));
    }
    bytes
}

/// Unpacking a packed colour gives back its channels.
pub proof fn lemma_unpack_pack(r: u8, g: u8, b: u8, a: u8)
    ensures
        spec_unpack_rgba(spec_pack_rgba(r, g, b, a) as u32) == seq![r, g, b, a],
{
    let c = spec_pack_rgba(r, g, b, a);
    assert(0 <= c < 0x1_0000_0000);
    assert(c % 256 == r) by (nonlinear_arith)
        requires
            c == r + 256 * g + 65536 * b + 16777216 * a,
            0 <= r < 256,
            0 <= g < 256,
            0 <= b < 256,
            0 <= a < 256,
    ;
    assert(c / 256 % 256 == g) by (nonlinear_arith)
        requires
            c == r + 256 * g + 65536 * b + 16777216 * a,
            0 <= r < 256,
            0 <= g < 256,
            0 <= b < 256,
            0 <= a < 256,
    ;
    assert(c / 65536 % 256 == b) by (nonlinear_arith)
        requires
            c == r + 256 * g + 65536 * b + 16777216 * a,
            0 <= r < 256,
            0 <= g < 256,
            0 <= b < 256,
            0 <= a < 256,
    ;
    assert(c / 16777216 == a) by (nonlinear_arith)
        requires
            c == r + 256 * g + 65536 * b + 16777216 * a,
            0 <= r < 256,
            0 <= g < 256,
            0 <= b < 256,
            0 <= a < 256,
    ;
    assert(spec_unpack_rgba(c as u32) =~= seq![r, g, b, a]);
}

/// Packing the bytes of a colour word gives back the word.
pub proof fn lemma_pack_unpack(color: u32)
    ensures
        spec_pack_rgba(
            spec_unpack_rgba(color)[0],
            spec_unpack_rgba(color)[1],
            spec_unpack_rgba(color)[2],
            spec_unpack_rgba(color)[3],
        ) == color,
{
    let c = color as int;
    assert(c == c % 256 + 256 * (c / 256 % 256) + 65536 * (c / 65536 % 256) + 16777216 * (c
        / 16777216)) by (nonlinear_arith)
        requires
            0 <= c < 0x1_0000_0000,
    ;
}

/// `color` is the opaque colour made of channels that `channels` ensures for index `i`.
pub open spec fn built_entry<F: Fn(usize) -> [u8; 3]>(channels: F, i: int, color: u32) -> bool {
    exists|c: [u8; 3]|
        #[trigger] call_ensures(channels, (i as usize,), c) && color == spec_pack_rgba(
            c[0],
            c[1],
            c[2],
            0xff,
        )
}

/// `table` holds, at each index `i`, the opaque colour made of channels that `channels`
/// ensures for `i`.
pub open spec fn built_from<F: Fn(usize) -> [u8; 3]>(table: Seq<u32>, channels: F) -> bool {
    forall|i: int| 0 <= i < table.len() ==> built_entry(channels, i, #[trigger] table[i])
}

/// Every table colour is opaque and carries the channels given for its index: its bytes are
/// red, green and blue as given, and alpha 255.
pub proof fn lemma_built_entry_is_opaque<F: Fn(usize) -> [u8; 3]>(channels: F, i: int, color: u32)
    requires
        built_entry(channels, i, color),
    ensures
        exists|c: [u8; 3]|
            #[trigger] call_ensures(channels, (i as usize,), c) && spec_unpack_rgba(color) == seq![
                c[0],
                c[1],
                c[2],
                255u8,
            ],
{
    let c = choose|c: [u8; 3]|
        #[trigger] call_ensures(channels, (i as usize,), c) && color == spec_pack_rgba(
            c[0],
            c[1],
            c[2],
            0xff,
        );
    lemma_unpack_pack(c[0], c[1], c[2], 0xff);
}

/// Lookup tables that colour cell values: one for positive values, one for negative values
/// (those of anti-ants). `RESOLUTION` is the number of colours in each table.
pub struct Palette<const RESOLUTION: usize> {
    /// Colours for positive values, from the lowest value to the highest.
    colors: Vec<u32>,
    /// Colours for negative values, from the lowest magnitude to the highest.
    anti_colors: Vec<u32>,
}

impl<const RESOLUTION: usize> Palette<RESOLUTION> {
    /// Colours for positive values.
    pub closed spec fn spec_colors(&self) -> Seq<u32> {
        self.colors@
    }

    /// Colours for negative values.
    pub closed spec fn spec_anti_colors(&self) -> Seq<u32> {
        self.anti_colors@
    }

    /// Both tables hold `RESOLUTION` colours, and there is at least one.
    pub open spec fn wf(&self) -> bool {
        &&& RESOLUTION > 0
        &&& self.spec_colors().len() == RESOLUTION
        &&& self.spec_anti_colors().len() == RESOLUTION
    }

    /// Builds both tables; `normal` and `anti` give the red, green and blue channel of the
    /// colour at each index of the table for positive and for negative values.
    pub fn new<F: Fn(usize) -> [u8; 3], G: Fn(usize) -> [u8; 3]>(normal: F, anti: G) -> (palette:
        Self)
        requires
            RESOLUTION > 0,
            forall|i: usize| normal.requires((i,)),
            forall|i: usize| anti.requires((i,)),
        ensures
            palette.wf(),
            built_from(palette.spec_colors(), normal),
            built_from(palette.spec_anti_colors(), anti),
    {
        let colors = Self::build_palette(normal);
        let anti_colors = Self::build_palette(anti);
        Palette { colors, anti_colors }
    }

    /// The colour for a cell value, given by the table for negative values when `negative`
    /// holds and for positive values otherwise, at `index`; an index past the end of the table
    /// gives its last colour.
    pub fn get_color(&self, negative: bool, index: usize) -> (color: u32)
        requires
            self.wf(),
        ensures
            color == {
                let table = if negative {
                    self.spec_anti_colors()
                } else {
                    self.spec_colors()
                };
                if index < table.len() {
                    table[index as int]
                } else {
                    table.last()
                }
            },
    {
        let table = if negative {
            &self.anti_colors
        } else {
            &self.colors
        };
        if index < table.len() {
            table[index]
        } else {
            table[table.len() - 1]
        }
    }

    /// A table of `RESOLUTION` opaque colours whose channels `channels` gives for each index.
    fn build_palette<F: Fn(usize) -> [u8; 3]>(channels: F) -> (table: Vec<u32>)
        requires
            forall|i: usize| channels.requires((i,)),
        ensures
            table@.len() == RESOLUTION,
            built_from(table@, channels),
    {
        let mut table: Vec<u32> = Vec::with_capacity(RESOLUTION);
        let mut index: usize = 0;
        while index < RESOLUTION
            invariant
                0 <= index <= RESOLUTION,
                table@.len() == index,
                forall|i: usize| channels.requires((i,)),
                built_from(table@, channels),
            decreases RESOLUTION - index,
        {
            let channel_values = channels(index);
            let alpha: u8 = 0xff;
            let color = pack_rgba(channel_values[0], channel_values[1], channel_values[2], alpha);
            let ghost previous = table@;
            table.push(color);
            proof {
                assert forall|i: int| 0 <= i < table@.len() implies built_entry(
                    channels,
                    i,
                    #[trigger] table@[i],
                ) by {
                    if i < index {
                        assert(table@[i] == previous[i]);
                    } else {
                        assert(call_ensures(channels, (i as usize,), channel_values));
                    }
                }
            }
            index = index + 1;
        }
        table
    }
}

} // verus!
