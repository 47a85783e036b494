//! The icon in the notification area and its menu.

use vstd::prelude::*;

use crate::strings;

verus! {

/// The menu item that ends the program.
pub const EXIT_ID: &'static str = "anvi.exit";

/// The menu item that turns starting at sign-in on and off.
pub const STARTUP_ID: &'static str = "anvi.startup";

/// The length of a side of the icon, in pixels.
pub const SIZE: i32 = 32;

/// The radius of its corners.
pub const RADIUS: i32 = 6;

/// How many pixels wide and high one dot of the letter is.
pub const GLYPH_SCALE: i32 = 4;

/// Where the letter of 5 by 7 dots starts, so that it is in the middle.
pub const GLYPH_LEFT: i32 = 6;

pub const GLYPH_TOP: i32 = 2;

/// What a click on a menu item asks for.
#[derive(Clone, Copy, Debug, PartialEq, Eq, Structural)]
pub enum MenuAction {
    Quit,
    ToggleAutostart,
    Unknown,
}

/// A pixel: red, green, blue and opacity.
#[derive(Clone, Copy, Debug, PartialEq, Eq, Structural)]
pub struct Pixel {
    pub r: u8,
    pub g: u8,
    pub b: u8,
    pub a: u8,
}

/// The centre of the corner that a coordinate lies at, if it lies at one.
pub open spec fn corner(v: int) -> Option<int> {
    if v < RADIUS {
        Some(RADIUS as int)
    } else if v >= SIZE - RADIUS {
        Some(SIZE - 1 - RADIUS)
    } else {
        None
    }
}

/// Whether a pixel lies in the square with round corners.
pub open spec fn rounded(x: int, y: int) -> bool {
    match (corner(x), corner(y)) {
        (Some(cx), Some(cy)) => (x - cx) * (x - cx) + (y - cy) * (y - cy) <= RADIUS * RADIUS,
        _ => true,
    }
}

/// The dots of the letter A.
pub open spec fn dot(row: int, col: int) -> bool {
    if row == 0 {
        1 <= col <= 3
    } else if row == 3 {
        true
    } else {
        col == 0 || col == 4
    }
}

/// Whether a pixel belongs to the letter.
pub open spec fn on_letter(x: int, y: int) -> bool {
    &&& GLYPH_LEFT <= x < GLYPH_LEFT + 5 * GLYPH_SCALE
    &&& GLYPH_TOP <= y < GLYPH_TOP + 7 * GLYPH_SCALE
    &&& dot((y - GLYPH_TOP) / GLYPH_SCALE as int, (x - GLYPH_LEFT) / GLYPH_SCALE as int)
}

/// A pixel of the icon: the letter on a square with round corners, and nothing outside of it.
pub open spec fn pixel(x: int, y: int) -> Pixel {
    if on_letter(x, y) {
        Pixel { r: 0x8e, g: 0xc0, b: 0x7c, a: 0xff }
    } else if rounded(x, y) {
        Pixel { r: 0x24, g: 0x2b, b: 0x33, a: 0xff }
    } else {
        Pixel { r: 0, g: 0, b: 0, a: 0 }
    }
}

/// What the menu item `id` stands for.
pub open spec fn action_of(id: Seq<char>) -> MenuAction {
    if id == EXIT_ID@ {
        MenuAction::Quit
    } else if id == STARTUP_ID@ {
        MenuAction::ToggleAutostart
    } else {
        MenuAction::Unknown
    }
}

/// What a click on the menu item `id` asks for.
pub fn menu_action(id: &str) -> (action: MenuAction)
    ensures
        action == action_of(id@),
{
    if strings::str_eq(id, EXIT_ID) {
        MenuAction::Quit
    } else if strings::str_eq(id, STARTUP_ID) {
        MenuAction::ToggleAutostart
    } else {
        MenuAction::Unknown
    }
}

/// Whether one of the clicks that piled up was on the item `exit_id`.
pub fn exit_requested(clicks: &[String], exit_id: &str) -> (requested: bool)
    ensures
        requested == (exists|i: int|
            0 <= i < clicks@.len() && #[trigger] strings::texts(clicks@)[i] == exit_id@),
{
    let ghost ids = strings::texts(clicks@);
    let mut i: usize = 0;
    while i < clicks.len()
        invariant
            i <= clicks@.len(),
            ids == strings::texts(clicks@),
            forall|k: int| 0 <= k < i ==> #[trigger] ids[k] != exit_id@,
        decreases clicks@.len() - i,
    {
        if strings::str_eq(clicks[i].as_str(), exit_id) {
            assert(ids[i as int] == exit_id@);
            return true;
        }
        i = i + 1;
    }
    false
}

/// Whether a pixel lies in the square with round corners.
fn inside_rounded(x: i32, y: i32) -> (inside: bool)
    requires
        0 <= x < SIZE,
        0 <= y < SIZE,
    ensures
        inside == rounded(x as int, y as int),
{
    let cx: i32 = if x < RADIUS {
        RADIUS
    } else if x >= SIZE - RADIUS {
        SIZE - 1 - RADIUS
    } else {
        return true;
    };
    let cy: i32 = if y < RADIUS {
        RADIUS
    } else if y >= SIZE - RADIUS {
        SIZE - 1 - RADIUS
    } else {
        return true;
    };
    let dx: i32 = x - cx;
    let dy: i32 = y - cy;
    assert(0 <= dx * dx <= 36 && 0 <= dy * dy <= 36) by (nonlinear_arith)
        requires
            -6 <= dx <= 6,
            -6 <= dy <= 6,
    ;
    dx * dx + dy * dy <= RADIUS * RADIUS
}

/// Whether a pixel belongs to the letter.
fn inside_letter(x: i32, y: i32) -> (inside: bool)
    requires
        0 <= x < SIZE,
        0 <= y < SIZE,
    ensures
        inside == on_letter(x as int, y as int),
{
    if x < GLYPH_LEFT || x >= GLYPH_LEFT + 5 * GLYPH_SCALE || y < GLYPH_TOP || y >= GLYPH_TOP + 7
        * GLYPH_SCALE {
        return false;
    }
    let col: i32 = (x - GLYPH_LEFT) / GLYPH_SCALE;
    let row: i32 = (y - GLYPH_TOP) / GLYPH_SCALE;
    if row == 0 {
        1 <= col && col <= 3
    } else if row == 3 {
        true
    } else {
        col == 0 || col == 4
    }
}

/// The pixels of the icon, row by row, four bytes each.
pub fn icon() -> (rgba: Vec<u8>)
    ensures
        rgba@.len() == SIZE * SIZE * 4,
        forall|x: int, y: int|
            0 <= x < SIZE && 0 <= y < SIZE ==> {
                let at = (y * SIZE + x) * 4;
                #[trigger] pixel(x, y) == (Pixel {
                    r: rgba@[at],
                    g: rgba@[at + 1],
                    b: rgba@[at + 2],
                    a: rgba@[at + 3],
                })
            },
{
    let mut rgba: Vec<u8> = Vec::new();
    let mut i: i32 = 0;
    while i < SIZE * SIZE
        invariant
            0 <= i <= SIZE * SIZE,
            rgba@.len() == i * 4,
            forall|k: int|
                #![trigger rgba@[k * 4]]
                0 <= k < i ==> pixel(k % SIZE as int, k / SIZE as int) == (Pixel {
                    r: rgba@[k * 4],
                    g: rgba@[k * 4 + 1],
                    b: rgba@[k * 4 + 2],
                    a: rgba@[k * 4 + 3],
                }),
        decreases SIZE * SIZE - i,
    {
        let x: i32 = i % SIZE;
        let y: i32 = i / SIZE;
        let p = if inside_letter(x, y) {
            Pixel { r: 0x8e, g: 0xc0, b: 0x7c, a: 0xff }
        } else if inside_rounded(x, y) {
            Pixel { r: 0x24, g: 0x2b, b: 0x33, a: 0xff }
        } else {
            Pixel { r: 0, g: 0, b: 0, a: 0 }
        };
        let ghost was = rgba@;
        rgba.push(p.r);
        rgba.push(p.g);
        rgba.push(p.b);
        rgba.push(p.a);
        assert(forall|k: int| 0 <= k < was.len() ==> rgba@[k] == was[k]);
        assert forall|k: int| #![trigger rgba@[k * 4]] 0 <= k < i + 1 implies pixel(
            k % SIZE as int,
            k / SIZE as int,
        ) == (Pixel {
            r: rgba@[k * 4],
            g: rgba@[k * 4 + 1],
            b: rgba@[k * 4 + 2],
            a: rgba@[k * 4 + 3],
        }) by {
            if k < i {
                assert(was[k * 4] == rgba@[k * 4]);
            }
        }
        i = i + 1;
    }
    assert forall|x: int, y: int| 0 <= x < SIZE && 0 <= y < SIZE implies {
        let at = (y * SIZE + x) * 4;
        #[trigger] pixel(x, y) == (Pixel {
            r: rgba@[at],
            g: rgba@[at + 1],
            b: rgba@[at + 2],
            a: rgba@[at + 3],
        })
    } by {
        let k = y * SIZE + x;
        assert(k % SIZE as int == x && k / SIZE as int == y);
        assert(0 <= k < SIZE * SIZE);
        let first = rgba@[k * 4];
    }
    rgba
}

/// The icon is the same from left to right and from right to left.
pub proof fn law_icon_is_symmetric(x: int, y: int)
    requires
        0 <= x < SIZE,
        0 <= y < SIZE,
    ensures
        pixel(SIZE - 1 - x, y) == pixel(x, y),
{
    let m = SIZE - 1 - x;
    if let Some(cx) = corner(x) {
        let mx = corner(m)->0;
        assert(m - mx == -(x - cx));
        assert((m - mx) * (m - mx) == (x - cx) * (x - cx)) by (nonlinear_arith)
            requires
                m - mx == -(x - cx),
        ;
    }
    if GLYPH_LEFT <= x < GLYPH_LEFT + 5 * GLYPH_SCALE {
        let col = (x - GLYPH_LEFT) / GLYPH_SCALE as int;
        assert((m - GLYPH_LEFT) / GLYPH_SCALE as int == 4 - col);
    }
}

/// The letter is drawn in dots of 4 by 4 pixels: a bar over it, a bar through it, and a leg on either
/// side. All else of the square is background, and what lies outside of the round corners is
/// transparent.
pub proof fn law_icon_shows_a_letter(row: int, col: int, dx: int, dy: int)
    requires
        0 <= row < 7,
        0 <= col < 5,
        0 <= dx < 4,
        0 <= dy < 4,
    ensures
        ({
            let lit = (row == 0 && 1 <= col <= 3) || row == 3 || (row != 0 && (col == 0 || col
                == 4));
            pixel(6 + 4 * col + dx, 2 + 4 * row + dy) == (if lit {
                Pixel { r: 0x8e, g: 0xc0, b: 0x7c, a: 0xff }
            } else {
                Pixel { r: 0x24, g: 0x2b, b: 0x33, a: 0xff }
            })
        }),
{
    let x = 6 + 4 * col + dx;
    let y = 2 + 4 * row + dy;
    assert((x - 6) / 4 == col && (y - 2) / 4 == row);
    assert(corner(x) is None);
}

/// Beside the letter there is background inside of the round corners and nothing outside of them.
pub proof fn law_icon_has_round_corners(x: int, y: int)
    requires
        0 <= x < 32,
        0 <= y < 32,
        x < 6 || x >= 26 || y < 2 || y >= 30,
    ensures
        ({
            let cx: int = if x < 6 {
                6
            } else {
                25
            };
            let cy: int = if y < 6 {
                6
            } else {
                25
            };
            let at_corner = (x < 6 || x >= 26) && (y < 6 || y >= 26);
            let outside = at_corner && (x - cx) * (x - cx) + (y - cy) * (y - cy) > 36;
            pixel(x, y) == (if outside {
                Pixel { r: 0, g: 0, b: 0, a: 0 }
            } else {
                Pixel { r: 0x24, g: 0x2b, b: 0x33, a: 0xff }
            })
        }),
{
}

/// The menu has two items, one to leave and one for starting at sign-in; no other name stands for
/// anything.
pub proof fn law_menu(id: Seq<char>)
    ensures
        action_of("anvi.exit"@) == MenuAction::Quit,
        action_of("anvi.startup"@) == MenuAction::ToggleAutostart,
        id != "anvi.exit"@ && id != "anvi.startup"@ ==> action_of(id) == MenuAction::Unknown,
{
    reveal_strlit("anvi.exit");
    reveal_strlit("anvi.startup");
    assert("anvi.exit"@.len() == 9 && "anvi.startup"@.len() == 12);
}

} // verus!
