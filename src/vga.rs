use vstd::prelude::*;

use crate::io::{char_units, decimal, put_decimal, putc, puti, puts};
use crate::{color_code, Color};

verus! {

/// Screen width, in character cells of 2 by 4 pixels.
pub const SCREEN_W: usize = 32;

/// Screen height, in character cells of 2 by 4 pixels.
pub const SCREEN_H: usize = 16;

/// Number of text rows that the graphics mode can keep.
pub const TEXT_ROWS: u32 = 16;

/// Control sequence introducer: escape, then `[`.
pub open spec fn csi() -> Seq<u8> {
    seq![27u8, 91u8]
}

/// Clears the screen.
pub open spec fn clear_bytes() -> Seq<u8> {
    csi() + seq![50u8, 74u8]
}

/// Turns line wrapping on.
pub open spec fn wrapon_bytes() -> Seq<u8> {
    csi() + seq![63u8, 55u8, 104u8]
}

/// Turns line wrapping off.
pub open spec fn wrapoff_bytes() -> Seq<u8> {
    csi() + seq![63u8, 55u8, 108u8]
}

/// Moves the cursor to the top left corner.
pub open spec fn home_bytes() -> Seq<u8> {
    csi() + seq![72u8]
}

/// Sets the foreground and background colors (SGR 30-37 and 40-47).
pub open spec fn color_bytes(fore: Color, back: Color) -> Seq<u8> {
    csi() + decimal((30 + color_code(fore)) as nat) + seq![59u8] + decimal(
        (40 + color_code(back)) as nat,
    ) + seq![109u8]
}

/// Moves the cursor to row `x`, column `y`.
pub open spec fn pos_bytes(x: u32, y: u32) -> Seq<u8> {
    csi() + decimal(x as nat) + seq![59u8] + decimal(y as nat) + seq![72u8]
}

/// Whether a byte would be taken for a control character unless escaped.
pub open spec fn needs_escape(c: u8) -> bool {
    c == 8 || c == 10 || c == 13 || c == 27 || c == 127
}

/// A byte as sent in graphics mode: escaped where needed.
pub open spec fn escaped(c: u8) -> Seq<u8> {
    if needs_escape(c) {
        seq![27u8, c]
    } else {
        seq![c]
    }
}

/// Enters graphics mode, keeping `text_up_to` rows of text.
pub open spec fn graphics_bytes(text_up_to: u32) -> Seq<u8> {
    csi() + decimal(text_up_to as nat) + seq![93u8]
}

/// Whether a color lights one channel: 0 red, 1 green, 2 blue.
pub open spec fn channel(c: Color, ch: int) -> bool {
    if ch == 0 {
        c == Color::Red || c == Color::Yellow || c == Color::Magenta || c == Color::White
    } else if ch == 1 {
        c == Color::Green || c == Color::Yellow || c == Color::Cyan || c == Color::White
    } else {
        c == Color::Blue || c == Color::Magenta || c == Color::Cyan || c == Color::White
    }
}

/// Value of bit `i`: two to the power `i`.
pub open spec fn weight(i: nat) -> nat
    decreases i,
{
    if i == 0 {
        1
    } else {
        2 * weight((i - 1) as nat)
    }
}

/// Mask of the first `n` pixels that light channel `ch`: bit `i` for pixel `i`.
pub open spec fn mask(px: Seq<Color>, ch: int, n: nat) -> nat
    decreases n,
{
    if n == 0 {
        0
    } else {
        mask(px, ch, (n - 1) as nat) + if channel(px[n - 1], ch) {
            weight((n - 1) as nat)
        } else {
            0
        }
    }
}

/// Bytes of one character cell: the red, green and blue masks of its 8 pixels.
pub open spec fn cell_bytes(px: Seq<Color>) -> Seq<u8> {
    escaped(mask(px, 0, 8) as u8) + escaped(mask(px, 1, 8) as u8) + escaped(mask(px, 2, 8) as u8)
}

/// Screen coordinates of pixel `i` (0 to 7) of character cell `k`: the cell's
/// pixels run from the bottom right to the top left, row by row.
pub open spec fn pixel_xy(k: int, i: int) -> (u32, u32) {
    let x = (k % (SCREEN_W as int)) * 2 + if i % 2 == 0 {
        1int
    } else {
        0int
    };
    let y = (k / (SCREEN_W as int)) * 4 + 3 - i / 2;
    (x as u32, y as u32)
}

/// Bytes of the first `n` character cells of the screen whose pixels are `px`,
/// 8 per cell; wrapping is turned off before the last cell.
pub open spec fn cells_bytes(px: Seq<Color>, n: nat) -> Seq<u8>
    decreases n,
{
    if n == 0 {
        seq![]
    } else {
        let k = n - 1;
        cells_bytes(px, k as nat) + (if k == SCREEN_W * SCREEN_H - 1 {
            wrapoff_bytes()
        } else {
            seq![]
        }) + cell_bytes(px.subrange(8 * k, 8 * k + 8))
    }
}

/// The bytes that draw a whole screen whose pixels are `px`.
pub open spec fn screen_bytes(px: Seq<Color>) -> Seq<u8> {
    graphics_bytes(TEXT_ROWS) + seq![27u8, 71u8] + cells_bytes(px, (SCREEN_W * SCREEN_H) as nat)
        + wrapon_bytes() + seq![27u8, 84u8]
}

proof fn lemma_cells_prefix(a: Seq<Color>, b: Seq<Color>, n: nat)
    requires
        8 * n <= a.len(),
        8 * n <= b.len(),
        a.subrange(0, 8 * n as int) == b.subrange(0, 8 * n as int),
    ensures
        cells_bytes(a, n) == cells_bytes(b, n),
    decreases n,
{
    if n > 0 {
        let k = n - 1;
        let whole = 8 * n as int;
        assert(a.subrange(0, 8 * k) =~= a.subrange(0, whole).subrange(0, 8 * k));
        assert(b.subrange(0, 8 * k) =~= b.subrange(0, whole).subrange(0, 8 * k));
        lemma_cells_prefix(a, b, k as nat);
        assert(a.subrange(8 * k, 8 * k + 8) =~= a.subrange(0, whole).subrange(8 * k, 8 * k + 8));
        assert(b.subrange(8 * k, 8 * k + 8) =~= b.subrange(0, whole).subrange(8 * k, 8 * k + 8));
    }
}

fn channel_exec(c: Color, ch: u8) -> (r: bool)
    requires
        ch < 3,
    ensures
        r == channel(c, ch as int),
{
    match c {
        Color::Black => false,
        Color::Red => ch == 0,
        Color::Green => ch == 1,
        Color::Yellow => ch != 2,
        Color::Blue => ch == 2,
        Color::Magenta => ch != 1,
        Color::Cyan => ch != 0,
        Color::White => true,
    }
}

fn mask_exec(pixels: &[Color; 8], ch: u8) -> (r: u8)
    requires
        ch < 3,
    ensures
        r == mask(pixels@, ch as int, 8),
{
    let mut m: u32 = 0;
    let mut bit: u32 = 1;
    let mut i: usize = 0;
    while i < 8
        invariant
            i <= 8,
            ch < 3,
            bit == weight(i as nat),
            m == mask(pixels@, ch as int, i as nat),
            m < weight(i as nat),
            weight(i as nat) <= 256,
        decreases 8 - i,
    {
        proof {
            reveal_with_fuel(weight, 9);
        }
        // The bits of the pixels are distinct, so adding sets bit `i`.
        if channel_exec(pixels[i], ch) {
            m = m + bit;
        }
        bit = bit * 2;
        i = i + 1;
    }
    m as u8
}

/// Pseudo-VGA terminal driver: each method appends to `out` the bytes that the
/// terminal expects on its serial line.
pub struct Vga;

impl Vga {
    pub fn clear(&self, out: &mut Vec<u8>)
        ensures
            final(out)@ == old(out)@ + clear_bytes(),
    {
        proof {
            reveal_strlit("\x1B[2J");
            assert(char_units("\x1B[2J"@) =~= clear_bytes());
        }
        puts(out, "\x1B[2J");
    }

    pub fn wrapon(&self, out: &mut Vec<u8>)
        ensures
            final(out)@ == old(out)@ + wrapon_bytes(),
    {
        proof {
            reveal_strlit("\x1B[?7h");
            assert(char_units("\x1B[?7h"@) =~= wrapon_bytes());
        }
        puts(out, "\x1B[?7h");
    }

    pub fn wrapoff(&self, out: &mut Vec<u8>)
        ensures
            final(out)@ == old(out)@ + wrapoff_bytes(),
    {
        proof {
            reveal_strlit("\x1B[?7l");
            assert(char_units("\x1B[?7l"@) =~= wrapoff_bytes());
        }
        puts(out, "\x1B[?7l");
    }

    pub fn home(&self, out: &mut Vec<u8>)
        ensures
            final(out)@ == old(out)@ + home_bytes(),
    {
        proof {
            reveal_strlit("\x1b[H");
            assert(char_units("\x1b[H"@) =~= home_bytes());
        }
        puts(out, "\x1b[H");
    }

    fn csi(&self, out: &mut Vec<u8>)
        ensures
            final(out)@ == old(out)@ + csi(),
    {
        proof {
            reveal_strlit("\x1b[");
            assert(char_units("\x1b["@) =~= csi());
        }
        puts(out, "\x1b[");
    }

    /// Sets the foreground and background colors.
    pub fn color(&self, out: &mut Vec<u8>, fore: Color, back: Color)
        ensures
            final(out)@ == old(out)@ + color_bytes(fore, back),
    {
        self.csi(out);
        puti(out, 30 + fore.code() as i32);
        putc(out, 59);
        puti(out, 40 + back.code() as i32);
        putc(out, 109);
        assert(out@ =~= old(out)@ + color_bytes(fore, back));
    }

    /// Moves the cursor.
    pub fn pos(&self, out: &mut Vec<u8>, x: u32, y: u32)
        ensures
            final(out)@ == old(out)@ + pos_bytes(x, y),
    {
        self.csi(out);
        put_decimal(out, x);
        putc(out, 59);
        put_decimal(out, y);
        putc(out, 72);
        assert(out@ =~= old(out)@ + pos_bytes(x, y));
    }

    /// Sends a byte, escaped where the terminal would take it for control.
    pub fn putc_escaped(&self, out: &mut Vec<u8>, c: u8)
        ensures
            final(out)@ == old(out)@ + escaped(c),
    {
        if c == 8 || c == 10 || c == 13 || c == 27 || c == 127 {
            putc(out, 27);
        }
        putc(out, c);
        assert(out@ =~= old(out)@ + escaped(c));
    }

    pub fn puts(&self, out: &mut Vec<u8>, s: &str)
        ensures
            final(out)@ == old(out)@ + char_units(s@),
    {
        puts(out, s);
    }

    /// Switches to graphics, keeping the first `text_up_to` rows as text.
    pub fn graphics_mode(&self, out: &mut Vec<u8>, text_up_to: u32)
        requires
            text_up_to <= TEXT_ROWS,
        ensures
            final(out)@ == old(out)@ + graphics_bytes(text_up_to),
    {
        self.csi(out);
        put_decimal(out, text_up_to);
        putc(out, 93);
        assert(out@ =~= old(out)@ + graphics_bytes(text_up_to));
    }

    fn put_cell(&self, out: &mut Vec<u8>, pixels: &[Color; 8])
        ensures
            final(out)@ == old(out)@ + cell_bytes(pixels@),
    {
        let r = mask_exec(pixels, 0);
        let g = mask_exec(pixels, 1);
        let b = mask_exec(pixels, 2);
        self.putc_escaped(out, r);
        self.putc_escaped(out, g);
        self.putc_escaped(out, b);
        assert(out@ =~= old(out)@ + cell_bytes(pixels@));
    }

    /// Draws a whole screen in the terminal's graphics mode, each character
    /// cell showing 2 by 4 pixels; `pixel_f` gives the color of each pixel.
    pub fn draw_screen<F: Fn(u32, u32) -> Color>(&self, out: &mut Vec<u8>, pixel_f: F)
        requires
            forall|x: u32, y: u32| pixel_f.requires((x, y)),
        ensures
            exists|px: Seq<Color>|
                {
                    &&& px.len() == 8 * SCREEN_W * SCREEN_H
                    &&& forall|k: int, i: int|
                        0 <= k < SCREEN_W * SCREEN_H && 0 <= i < 8 ==> pixel_f.ensures(
                            pixel_xy(k, i),
                            #[trigger] px[8 * k + i],
                        )
                    &&& final(out)@ == old(out)@ + screen_bytes(px)
                },
    {
        self.graphics_mode(out, TEXT_ROWS);
        proof {
            reveal_strlit("\x1bG");
            assert(char_units("\x1bG"@) =~= seq![27u8, 71u8]);
        }
        // Tricoder mode start.
        puts(out, "\x1bG");
        let ghost head = out@;
        let ghost mut px: Seq<Color> = seq![];

        // Iterate through the screen characters.
        let mut char_offset: usize = 0;
        while char_offset < SCREEN_W * SCREEN_H
            invariant
                char_offset <= SCREEN_W * SCREEN_H,
                forall|x: u32, y: u32| pixel_f.requires((x, y)),
                px.len() == 8 * char_offset,
                forall|k: int, i: int|
                    0 <= k < char_offset && 0 <= i < 8 ==> pixel_f.ensures(
                        pixel_xy(k, i),
                        #[trigger] px[8 * k + i],
                    ),
                head == old(out)@ + graphics_bytes(TEXT_ROWS) + seq![27u8, 71u8],
                out@ == head + cells_bytes(px, char_offset as nat),
            decreases SCREEN_W * SCREEN_H - char_offset,
        {
            let ghost before = out@;
            if char_offset == SCREEN_W * SCREEN_H - 1 {
                // Disable wrapping out of screen.
                self.wrapoff(out);
            }
            let x = ((char_offset % SCREEN_W) * 2) as u32;
            let y = ((char_offset / SCREEN_W) * 4) as u32;
            // Collect the pixels that the current character cell covers.
            let pixels = [
                pixel_f(x + 1, y + 3),
                pixel_f(x, y + 3),
                pixel_f(x + 1, y + 2),
                pixel_f(x, y + 2),
                pixel_f(x + 1, y + 1),
                pixel_f(x, y + 1),
                pixel_f(x + 1, y),
                pixel_f(x, y),
            ];
            self.put_cell(out, &pixels);
            proof {
                let old_px = px;
                px = px + pixels@;
                let k = char_offset as int;
                assert(px.subrange(8 * k, 8 * k + 8) =~= pixels@);
                assert(px.subrange(0, 8 * k) =~= old_px.subrange(0, 8 * k));
                lemma_cells_prefix(px, old_px, char_offset as nat);
                assert forall|j: int, i: int|
                    0 <= j < char_offset + 1 && 0 <= i < 8 implies pixel_f.ensures(
                        pixel_xy(j, i),
                        #[trigger] px[8 * j + i],
                    ) by {
                    if j < k {
                        assert(px[8 * j + i] == old_px[8 * j + i]);
                    } else {
                        assert(px[8 * j + i] == pixels@[i]);
                    }
                }
                assert(out@ =~= head + cells_bytes(px, (char_offset + 1) as nat));
            }
            char_offset = char_offset + 1;
        }

        self.wrapon(out);
        proof {
            reveal_strlit("\x1bT");
            assert(char_units("\x1bT"@) =~= seq![27u8, 84u8]);
        }
        // Tricoder mode end.
        puts(out, "\x1bT");
        assert(out@ =~= old(out)@ + screen_bytes(px));
    }
}

} // verus!
