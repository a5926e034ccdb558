//! The built-in sprite table: sixteen hexadecimal glyphs, five bytes each,
//! loaded at the bottom of memory when a machine is created.
use vstd::prelude::*;

verus! {

/// The eighty bytes of the glyph table, one five-byte sprite per
/// hexadecimal digit, in digit order.
pub open spec fn spec_font() -> Seq<u8> {
    seq![
        0xF0u8, 0x90, 0x90, 0x90, 0xF0, // 0
        0x20, 0x60, 0x20, 0x20, 0x70, // 1
        0xF0, 0x10, 0xF0, 0x80, 0xF0, // 2
        0xF0, 0x10, 0xF0, 0x10, 0xF0, // 3
        0x90, 0x90, 0xF0, 0x10, 0x10, // 4
        0xF0, 0x80, 0xF0, 0x10, 0xF0, // 5
        0xF0, 0x80, 0xF0, 0x90, 0xF0, // 6
        0xF0, 0x10, 0x20, 0x40, 0x40, // 7
        0xF0, 0x90, 0xF0, 0x90, 0xF0, // 8
        0xF0, 0x90, 0xF0, 0x10, 0xF0, // 9
        0xF0, 0x90, 0xF0, 0x90, 0x90, // A
        0xE0, 0x90, 0xE0, 0x90, 0xE0, // B
        0xF0, 0x80, 0x80, 0x80, 0xF0, // C
        0xE0, 0x90, 0x90, 0x90, 0xE0, // D
        0xF0, 0x80, 0xF0, 0x80, 0xF0, // E
        0xF0, 0x80, 0xF0, 0x80, 0x80, // F
    ]
}

fn push_glyph(ram: &mut Vec<u8>, r0: u8, r1: u8, r2: u8, r3: u8, r4: u8)
    ensures
        final(ram)@ == old(ram)@ + seq![r0, r1, r2, r3, r4],
{
    ram.push(r0);
    ram.push(r1);
    ram.push(r2);
    ram.push(r3);
    ram.push(r4);
    proof {
        assert(ram@ =~= old(ram)@ + seq![r0, r1, r2, r3, r4]);
    }
}

/// Builds the glyph table as a vector of eighty bytes.
pub fn font_table() -> (f: Vec<u8>)
    ensures
        f@ == spec_font(),
{
    let mut f: Vec<u8> = Vec::new();
    push_glyph(&mut f, 0xF0, 0x90, 0x90, 0x90, 0xF0);
    push_glyph(&mut f, 0x20, 0x60, 0x20, 0x20, 0x70);
    push_glyph(&mut f, 0xF0, 0x10, 0xF0, 0x80, 0xF0);
    push_glyph(&mut f, 0xF0, 0x10, 0xF0, 0x10, 0xF0);
    push_glyph(&mut f, 0x90, 0x90, 0xF0, 0x10, 0x10);
    push_glyph(&mut f, 0xF0, 0x80, 0xF0, 0x10, 0xF0);
    push_glyph(&mut f, 0xF0, 0x80, 0xF0, 0x90, 0xF0);
    push_glyph(&mut f, 0xF0, 0x10, 0x20, 0x40, 0x40);
    push_glyph(&mut f, 0xF0, 0x90, 0xF0, 0x90, 0xF0);
    push_glyph(&mut f, 0xF0, 0x90, 0xF0, 0x10, 0xF0);
    push_glyph(&mut f, 0xF0, 0x90, 0xF0, 0x90, 0x90);
    push_glyph(&mut f, 0xE0, 0x90, 0xE0, 0x90, 0xE0);
    push_glyph(&mut f, 0xF0, 0x80, 0x80, 0x80, 0xF0);
    push_glyph(&mut f, 0xE0, 0x90, 0x90, 0x90, 0xE0);
    push_glyph(&mut f, 0xF0, 0x80, 0xF0, 0x80, 0xF0);
    push_glyph(&mut f, 0xF0, 0x80, 0xF0, 0x80, 0x80);
    proof {
        assert(f@ =~= spec_font());
    }
    f
}

} // verus!
