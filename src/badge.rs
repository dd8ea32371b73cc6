use vstd::prelude::*;

verus! {

/// Side length, in pixels, of the square overlay icon.
pub const ICON_SIZE: u32 = 16;

/// Bytes in the one-bit transparency (AND) mask of the icon.
pub const AND_MASK_LEN: usize = 32;

/// Bytes in the 32-bit BGRA colour (XOR) mask of the icon.
pub const XOR_MASK_LEN: usize = 1024;

/// Whether pixel `(x, y)` lies in the red dot: the disc of radius 4 around
/// the icon's centre (7.5, 7.5). Coordinates are doubled so that the test
/// stays in integers: `(2x - 15)² + (2y - 15)² <= 8²`.
pub open spec fn in_dot(x: int, y: int) -> bool {
    (2 * x - 15) * (2 * x - 15) + (2 * y - 15) * (2 * y - 15) <= 64
}

/// Bit `i` of a mask byte, counted from the most significant bit, is set.
pub open spec fn mask_bit(byte: u8, i: int) -> bool {
    (byte >> ((7 - i) as u8)) & 1u8 == 1u8
}

/// Index in the AND mask of the byte holding pixel `(x, y)`: two bytes per row.
pub open spec fn and_index(x: int, y: int) -> int {
    y * 2 + x / 8
}

/// Index in the XOR mask of the first (blue) byte of pixel `(x, y)`.
pub open spec fn xor_index(x: int, y: int) -> int {
    (y * 16 + x) * 4
}

/// Colour byte `c` (0 = blue, 1 = green, 2 = red, 3 = alpha) of pixel `(x, y)`:
/// opaque red inside the dot, all zero outside.
pub open spec fn pixel_channel(x: int, y: int, c: int) -> u8 {
    if in_dot(x, y) && c >= 2 { 255u8 } else { 0u8 }
}

/// The overlay icon as its two masks: in the AND mask a set bit is
/// transparent, a clear bit opaque; the XOR mask holds BGRA colours.
pub struct BadgeIcon {
    pub and_mask: Vec<u8>,
    pub xor_mask: Vec<u8>,
}

impl BadgeIcon {
    /// The masks describe the red dot exactly.
    pub open spec fn is_red_dot(&self) -> bool {
        &&& self.and_mask@.len() == AND_MASK_LEN
        &&& self.xor_mask@.len() == XOR_MASK_LEN
        &&& forall|x: int, y: int|
            0 <= x < 16 && 0 <= y < 16 ==> (#[trigger] mask_bit(
                self.and_mask@[and_index(x, y)],
                x % 8,
            ) <==> !in_dot(x, y))
        &&& forall|x: int, y: int, c: int|
            0 <= x < 16 && 0 <= y < 16 && 0 <= c < 4 ==> #[trigger] self.xor_mask@[xor_index(x, y)
                + c] == pixel_channel(x, y, c)
    }
}

/// Decides whether pixel `(x, y)` of the icon belongs to the dot.
pub fn covers(x: u32, y: u32) -> (r: bool)
    requires
        x < 16,
        y < 16,
    ensures
        r == in_dot(x as int, y as int),
{
    let dx: i32 = 2 * (x as i32) - 15;
    let dy: i32 = 2 * (y as i32) - 15;
    assert(dx * dx <= 225) by (nonlinear_arith)
        requires
            -15 <= dx <= 15,
    ;
    assert(dy * dy <= 225) by (nonlinear_arith)
        requires
            -15 <= dy <= 15,
    ;
    assert(dx * dx >= 0 && dy * dy >= 0) by (nonlinear_arith);
    dx * dx + dy * dy <= 64
}

proof fn lemma_set_bit(b: u8, i: u8, j: u8)
    requires
        i < 8,
        j < 8,
    ensures
        ((b | (0x80u8 >> i)) >> (7 - j) as u8) & 1u8 == (if i == j {
            1u8
        } else {
            (b >> (7 - j) as u8) & 1u8
        }),
{
    assert(((b | (0x80u8 >> i)) >> (7 - j) as u8) & 1u8 == (if i == j {
        1u8
    } else {
        (b >> (7 - j) as u8) & 1u8
    })) by (bit_vector)
        requires
            i < 8,
            j < 8,
    ;
}

proof fn lemma_zero_bits(j: u8)
    requires
        j < 8,
    ensures
        (0u8 >> (7 - j) as u8) & 1u8 == 0u8,
{
    assert((0u8 >> (7 - j) as u8) & 1u8 == 0u8) by (bit_vector);
}

/// One byte of the AND mask: the eight pixels `x0 .. x0 + 8` of row `y`,
/// a set bit for each pixel outside the dot.
fn and_mask_byte(x0: u32, y: u32) -> (r: u8)
    requires
        x0 == 0 || x0 == 8,
        y < 16,
    ensures
        forall|i: int| 0 <= i < 8 ==> (#[trigger] mask_bit(r, i) <==> !in_dot(x0 + i, y as int)),
{
    let mut byte: u8 = 0;
    let mut i: u8 = 0;
    assert forall|j: int| 0 <= j < 8 implies !#[trigger] mask_bit(byte, j) by {
        lemma_zero_bits(j as u8);
    };
    while i < 8
        invariant
            i <= 8,
            x0 == 0 || x0 == 8,
            y < 16,
            forall|j: int| 0 <= j < 8 ==> (#[trigger] mask_bit(byte, j) <==> (j < i && !in_dot(x0 + j, y as int))),
        decreases 8 - i,
    {
        if !covers(x0 + i as u32, y) {
            let ghost prev = byte;
            byte = byte | (0x80u8 >> i);
            assert forall|j: int| 0 <= j < 8 implies (#[trigger] mask_bit(byte, j) <==> (j < i + 1
                && !in_dot(x0 + j, y as int))) by {
                lemma_set_bit(prev, i, j as u8);
                assert(mask_bit(prev, j) <==> (j < i && !in_dot(x0 + j, y as int)));
            };
        }
        i = i + 1;
    }
    byte
}

/// Builds the AND mask of the red dot, row by row.
fn and_mask() -> (r: Vec<u8>)
    ensures
        r@.len() == AND_MASK_LEN,
        forall|x: int, y: int|
            0 <= x < 16 && 0 <= y < 16 ==> (#[trigger] mask_bit(r@[and_index(x, y)], x % 8)
                <==> !in_dot(x, y)),
{
    let mut mask: Vec<u8> = Vec::new();
    let mut y: u32 = 0;
    while y < ICON_SIZE
        invariant
            y <= 16,
            mask@.len() == 2 * y,
            forall|x: int, yy: int|
                0 <= x < 16 && 0 <= yy < y ==> (#[trigger] mask_bit(mask@[and_index(x, yy)], x % 8)
                    <==> !in_dot(x, yy)),
        decreases 16 - y,
    {
        let left = and_mask_byte(0, y);
        let right = and_mask_byte(8, y);
        mask.push(left);
        mask.push(right);
        assert forall|x: int, yy: int|
            0 <= x < 16 && 0 <= yy < y + 1 implies (#[trigger] mask_bit(
                mask@[and_index(x, yy)],
                x % 8,
            ) <==> !in_dot(x, yy)) by {
            if yy == y {
                if x < 8 {
                    assert(and_index(x, yy) == 2 * y);
                    assert(mask_bit(left, x) <==> !in_dot(0 + x, y as int));
                } else {
                    assert(and_index(x, yy) == 2 * y + 1);
                    assert(mask_bit(right, x - 8) <==> !in_dot(8 + (x - 8), y as int));
                }
            } else {
                assert(and_index(x, yy) < 2 * y);
            }
        };
        y = y + 1;
    }
    mask
}

/// Builds the XOR mask of the red dot: four BGRA bytes per pixel, row-major.
fn xor_mask() -> (r: Vec<u8>)
    ensures
        r@.len() == XOR_MASK_LEN,
        forall|x: int, y: int, c: int|
            0 <= x < 16 && 0 <= y < 16 && 0 <= c < 4 ==> #[trigger] r@[xor_index(x, y) + c]
                == pixel_channel(x, y, c),
{
    let mut mask: Vec<u8> = Vec::new();
    let mut y: u32 = 0;
    while y < ICON_SIZE
        invariant
            y <= 16,
            mask@.len() == 64 * y,
            forall|x: int, yy: int, c: int|
                0 <= x < 16 && 0 <= yy < y && 0 <= c < 4 ==> #[trigger] mask@[xor_index(x, yy) + c]
                    == pixel_channel(x, yy, c),
        decreases 16 - y,
    {
        let mut x: u32 = 0;
        while x < ICON_SIZE
            invariant
                y < 16,
                x <= 16,
                mask@.len() == 64 * y + 4 * x,
                forall|xx: int, yy: int, c: int|
                    0 <= xx < 16 && 0 <= yy < 16 && 0 <= c < 4 && (yy < y || (yy == y && xx < x))
                        ==> #[trigger] mask@[xor_index(xx, yy) + c] == pixel_channel(xx, yy, c),
            decreases 16 - x,
        {
            let ghost before = mask@;
            let (red, alpha): (u8, u8) = if covers(x, y) {
                (255, 255)
            } else {
                (0, 0)
            };
            mask.push(0);
            mask.push(0);
            mask.push(red);
            mask.push(alpha);
            assert forall|xx: int, yy: int, c: int|
                0 <= xx < 16 && 0 <= yy < 16 && 0 <= c < 4 && (yy < y || (yy == y && xx < x + 1))
                    implies #[trigger] mask@[xor_index(xx, yy) + c] == pixel_channel(xx, yy, c) by {
                if yy == y && xx == x {
                    assert(xor_index(xx, yy) == 64 * y + 4 * x);
                } else {
                    assert(xor_index(xx, yy) + c < 64 * y + 4 * x);
                    assert(mask@[xor_index(xx, yy) + c] == before[xor_index(xx, yy) + c]);
                }
            };
            x = x + 1;
        }
        y = y + 1;
    }
    mask
}

/// The overlay icon: an opaque red dot on a transparent 16×16 square.
pub fn red_dot_icon() -> (r: BadgeIcon)
    ensures
        r.is_red_dot(),
{
    BadgeIcon { and_mask: and_mask(), xor_mask: xor_mask() }
}

/// What the dock badge shows after an update with `count`: the number while
/// it is positive, nothing otherwise.
pub open spec fn badge_count(count: int) -> Option<int> {
    if count > 0 {
        Some(count)
    } else {
        None
    }
}

/// Whether the taskbar carries an overlay icon after an update with `count`,
/// whatever it carried before: each update fully decides it.
pub open spec fn overlay_after(before: bool, count: int) -> bool {
    count > 0
}

/// What the taskbar or dock shows after an update of the unread count.
pub struct BadgeUpdate {
    /// The number on the dock icon; `None` removes the badge.
    pub count: Option<i32>,
    /// The overlay icon to install on the taskbar; `None` clears the overlay.
    pub overlay: Option<BadgeIcon>,
}

/// Decides the badge for an unread `count`: a positive count shows the
/// number and the red dot, any other count clears both.
pub fn update_badge(count: i32) -> (r: BadgeUpdate)
    ensures
        r.count == (if count > 0 { Some(count) } else { None::<i32> }),
        r.count matches Some(c) ==> badge_count(count as int) == Some(c as int),
        r.count is None ==> badge_count(count as int) is None,
        (r.overlay is Some) == overlay_after(false, count as int),
        r.overlay matches Some(icon) ==> icon.is_red_dot(),
{
    if count > 0 {
        BadgeUpdate { count: Some(count), overlay: Some(red_dot_icon()) }
    } else {
        BadgeUpdate { count: None, overlay: None }
    }
}

/// Clearing after showing: an update with zero, after one with a positive
/// count, leaves no overlay icon and no dock number.
pub proof fn lemma_zero_clears_badge(before: bool, n: int)
    requires
        n > 0,
    ensures
        overlay_after(before, n),
        !overlay_after(overlay_after(before, n), 0),
        badge_count(0) is None,
{
}
} // verus!
