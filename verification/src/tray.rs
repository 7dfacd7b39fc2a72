//! The tray menu's actions and the application icon: a 32x32 RGBA image, a
//! white "S" on a blurple square.

use vstd::prelude::*;
use crate::text::same_text;

verus! {

/// What a tray menu entry asks for.
#[derive(Clone, Copy, Debug, PartialEq, Eq, Structural)]
pub enum TrayAction {
    Show,
    Quit,
}

/// The action for a menu event with id `event_id`, given the ids of the
/// "Show" and "Quit" entries ("Show" wins if both are equal).
pub fn menu_action(event_id: &str, show_id: &str, quit_id: &str) -> (r: Option<TrayAction>)
    ensures
        event_id@ == show_id@ ==> r == Some(TrayAction::Show),
        event_id@ != show_id@ && event_id@ == quit_id@ ==> r == Some(TrayAction::Quit),
        event_id@ != show_id@ && event_id@ != quit_id@ ==> r is None,
{
    if same_text(event_id, show_id) {
        Some(TrayAction::Show)
    } else if same_text(event_id, quit_id) {
        Some(TrayAction::Quit)
    } else {
        None
    }
}

/// The side of the square icon, in pixels.
pub const ICON_SIZE: u32 = 32;

/// Pixel (`x`, `y`) lies on the letter "S".
pub open spec fn in_letter(x: int, y: int) -> bool {
    &&& 8 <= x <= 24
    &&& 6 <= y <= 26
    &&& {
        ||| (y <= 12 && (x <= 10 || x >= 22))
        ||| (14 <= y <= 18 && x <= 22)
        ||| (y >= 20 && (x <= 10 || x >= 22))
    }
}

/// Channel `c` (red, green, blue, alpha) of pixel (`x`, `y`).
pub open spec fn icon_channel(x: int, y: int, c: int) -> u8 {
    if in_letter(x, y) {
        0xFF
    } else if c == 0 {
        0x58
    } else if c == 1 {
        0x65
    } else if c == 2 {
        0xF2
    } else {
        0xFF
    }
}

/// Byte `k` of the row-major RGBA icon: channel `k % 4` of pixel
/// `k / 4`, which is at column `(k / 4) % 32` of row `k / 128`.
pub open spec fn icon_byte(k: int) -> u8 {
    icon_channel((k / 4) % 32, k / 128, k % 4)
}

/// Whether pixel (`x`, `y`) lies on the letter.
fn pixel_in_letter(x: u32, y: u32) -> (r: bool)
    ensures
        r == in_letter(x as int, y as int),
{
    (x >= 8 && x <= 24) && (y >= 6 && y <= 26) && ((y <= 12 && (x <= 10 || x >= 22)) || (y >= 14
        && y <= 18 && x <= 22) || (y >= 20 && (x <= 10 || x >= 22)))
}

/// The icon as row-major RGBA bytes, 32 x 32 pixels.
pub fn icon_rgba() -> (r: Vec<u8>)
    ensures
        r.len() == 4096,
        forall|k: int| 0 <= k < 4096 ==> #[trigger] r@[k] == icon_byte(k),
{
    let mut pixels: Vec<u8> = Vec::new();
    let mut y: u32 = 0;
    while y < 32
        invariant
            y <= 32,
            pixels.len() == y * 128,
            forall|k: int| 0 <= k < pixels.len() ==> #[trigger] pixels@[k] == icon_byte(k),
        decreases 32 - y,
    {
        let mut x: u32 = 0;
        while x < 32
            invariant
                y < 32,
                x <= 32,
                pixels.len() == y * 128 + x * 4,
                forall|k: int| 0 <= k < pixels.len() ==> #[trigger] pixels@[k] == icon_byte(k),
            decreases 32 - x,
        {
            let on = pixel_in_letter(x, y);
            let base = pixels.len();
            if on {
                pixels.push(0xFF);
                pixels.push(0xFF);
                pixels.push(0xFF);
                pixels.push(0xFF);
            } else {
                pixels.push(0x58);
                pixels.push(0x65);
                pixels.push(0xF2);
                pixels.push(0xFF);
            }
            assert forall|k: int| 0 <= k < pixels.len() implies #[trigger] pixels@[k] == icon_byte(k) by {
                if k >= base {
                    let c = k - base;
                    let (xi, yi) = (x as int, y as int);
                    assert(0 <= c < 4);
                    assert(k == yi * 128 + xi * 4 + c);
                    assert(k / 4 == yi * 32 + xi) by (nonlinear_arith)
                        requires
                            k == yi * 128 + xi * 4 + c,
                            0 <= c < 4,
                            0 <= xi < 32,
                            0 <= yi < 32,
                    ;
                    assert((yi * 32 + xi) % 32 == xi) by (nonlinear_arith)
                        requires
                            0 <= xi < 32,
                            0 <= yi < 32,
                    ;
                    assert(k / 128 == yi) by (nonlinear_arith)
                        requires
                            k == yi * 128 + xi * 4 + c,
                            0 <= c < 4,
                            0 <= xi < 32,
                            0 <= yi < 32,
                    ;
                    assert(k % 4 == c) by (nonlinear_arith)
                        requires
                            k == yi * 128 + xi * 4 + c,
                            0 <= c < 4,
                    ;
                }
            }
            x += 1;
        }
        y += 1;
    }
    pixels
}

/// `bytes` read as 4-byte pixels with the first and third byte of each
/// whole pixel exchanged (BGRA to RGBA and back); bytes after the last
/// whole pixel stay as they are.
pub open spec fn swapped_red_blue(bytes: Seq<u8>) -> Seq<u8> {
    Seq::new(
        bytes.len(),
        |i: int|
            if i - i % 4 + 4 <= bytes.len() && i % 4 == 0 {
                bytes[i + 2]
            } else if i - i % 4 + 4 <= bytes.len() && i % 4 == 2 {
                bytes[i - 2]
            } else {
                bytes[i]
            },
    )
}

/// Turns BGRA pixels into RGBA ones in place (or back): exchanges the
/// first and third byte of every whole 4-byte pixel.
pub fn bgra_to_rgba(bytes: &mut Vec<u8>)
    ensures
        final(bytes)@ == swapped_red_blue(old(bytes)@),
{
    let ghost orig = bytes@;
    let n = bytes.len();
    let mut i: usize = 0;
    while n - i >= 4
        invariant
            n == orig.len(),
            bytes.len() == n,
            i <= n,
            i % 4 == 0,
            forall|j: int| 0 <= j < i ==> #[trigger] bytes@[j] == swapped_red_blue(orig)[j],
            forall|j: int| i <= j < n ==> #[trigger] bytes@[j] == orig[j],
        decreases n - i,
    {
        let b = bytes[i];
        let r = bytes[i + 2];
        bytes.set(i, r);
        bytes.set(i + 2, b);
        assert forall|j: int| i <= j < i + 4 implies #[trigger] bytes@[j] == swapped_red_blue(orig)[j] by {
            assert(j - j % 4 == i);
        }
        i += 4;
    }
    assert forall|j: int| i <= j < n implies #[trigger] bytes@[j] == swapped_red_blue(orig)[j] by {
        assert(j - j % 4 + 4 > n);
    }
    assert(bytes@ =~= swapped_red_blue(orig));
}

/// Exchanging the red and blue bytes twice gives the pixels back.
pub proof fn law_swap_twice_restores(bytes: Seq<u8>)
    ensures
        swapped_red_blue(swapped_red_blue(bytes)) == bytes,
{
    let once = swapped_red_blue(bytes);
    assert forall|i: int| 0 <= i < bytes.len() implies #[trigger] swapped_red_blue(once)[i] == bytes[i] by {
        if i - i % 4 + 4 <= bytes.len() && i % 4 == 0 {
            assert((i + 2) - (i + 2) % 4 == i);
        } else if i - i % 4 + 4 <= bytes.len() && i % 4 == 2 {
            assert((i - 2) - (i - 2) % 4 == i - 2);
        }
    }
    assert(swapped_red_blue(once) =~= bytes);
}

} // verus!
