//! The sun in the system tray.

use vstd::prelude::*;

verus! {

/// Width and height of the icon in pixels.
pub const ICON_SIZE: u32 = 32;

/// Four times the squared radius of the sun.
pub const SUN: u32 = 576;

/// Four times the squared distance of the centre of pixel (`x`, `y`) from the centre of the icon.
pub open spec fn off_centre(x: int, y: int) -> int {
    (2 * x - 31) * (2 * x - 31) + (2 * y - 31) * (2 * y - 31)
}

/// Whether `c` is the square root of `n / d`, rounded up.
pub open spec fn root_up(c: int, n: int, d: int) -> bool {
    &&& 0 <= c
    &&& d * (c * c) >= n
    &&& c > 0 ==> d * ((c - 1) * (c - 1)) < n
}

/// The colour of a pixel. Where `t` is the distance from the centre in parts of the radius, red is
/// full, green is `210 + 45 * (1 - t)` and blue `60 * (1 - t)`, fractions dropped; outside the sun
/// the pixel is clear.
pub open spec fn sun_pixel(x: int, y: int, red: u8, green: u8, blue: u8, alpha: u8) -> bool {
    let n = off_centre(x, y);
    if n <= SUN {
        &&& red == 255
        &&& root_up(255 - green, 225 * n, 64)
        &&& root_up(60 - blue, 25 * n, 4)
        &&& alpha == 255
    } else {
        red == 0 && green == 0 && blue == 0 && alpha == 0
    }
}

pub open spec fn pixel_shown(rgba: Seq<u8>, k: int) -> bool {
    sun_pixel(
        k % ICON_SIZE as int,
        k / ICON_SIZE as int,
        rgba[4 * k],
        rgba[4 * k + 1],
        rgba[4 * k + 2],
        rgba[4 * k + 3],
    )
}

fn root(n: u32, d: u32, max: u32) -> (c: u32)
    requires
        1 <= d <= 64,
        max <= 60,
        n <= d * (max * max),
    ensures
        c <= max,
        root_up(c as int, n as int, d as int),
{
    let mut c: u32 = 0;
    assert(d * (max * max) <= 64 * 3600) by (nonlinear_arith)
        requires
            1 <= d <= 64,
            max <= 60,
    ;
    loop
        invariant
            1 <= d <= 64,
            c <= max <= 60,
            n <= d * (max * max),
            c > 0 ==> d * ((c - 1) * (c - 1)) < n,
        ensures
            c <= max,
            root_up(c as int, n as int, d as int),
        decreases max - c,
    {
        assert(c * c <= 3600) by (nonlinear_arith)
            requires
                c <= 60,
        ;
        assert(d * (c * c) <= 64 * 3600) by (nonlinear_arith)
            requires
                1 <= d <= 64,
                c * c <= 3600,
        ;
        if d * (c * c) >= n {
            break ;
        }
        c = c + 1;
    }
    c
}

/// The icon's pixels by rows, as red, green, blue and alpha.
pub fn sun_icon() -> (rgba: Vec<u8>)
    ensures
        rgba@.len() == 4 * ICON_SIZE * ICON_SIZE,
        forall|k: int|
            0 <= k < ICON_SIZE * ICON_SIZE ==> #[trigger] pixel_shown(rgba@, k),
{
    let mut rgba: Vec<u8> = Vec::new();
    let mut k: u32 = 0;
    while k < 1024
        invariant
            k <= 1024,
            rgba@.len() == 4 * k,
            forall|j: int| 0 <= j < k ==> #[trigger] pixel_shown(rgba@, j),
        decreases 1024 - k,
    {
        let x: i32 = (k % 32) as i32;
        let y: i32 = (k / 32) as i32;
        let (a, b): (i32, i32) = (2 * x - 31, 2 * y - 31);
        assert(0 <= a * a <= 961 && 0 <= b * b <= 961) by (nonlinear_arith)
            requires
                -31 <= a <= 31,
                -31 <= b <= 31,
        ;
        let n: u32 = (a * a + b * b) as u32;
        let ghost before = rgba@;
        if n <= SUN {
            let green: u8 = (255 - root(225 * n, 64, 45)) as u8;
            let blue: u8 = (60 - root(25 * n, 4, 60)) as u8;
            rgba.push(255);
            rgba.push(green);
            rgba.push(blue);
            rgba.push(255);
        } else {
            rgba.push(0);
            rgba.push(0);
            rgba.push(0);
            rgba.push(0);
        }
        assert(n == off_centre(x as int, y as int));
        assert(pixel_shown(rgba@, k as int));
        assert forall|j: int| 0 <= j < k implies #[trigger] pixel_shown(rgba@, j) by {
            assert(pixel_shown(before, j));
        }
        k = k + 1;
    }
    rgba
}

} // verus!
