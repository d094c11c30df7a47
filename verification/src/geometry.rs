//! Whole-pixel geometry of the wallpaper: how the source picture is scaled to
//! cover the screen, and where the text block is drawn.
//!
//! All lengths are in pixels.

use vstd::prelude::*;

verus! {

/// The smallest font size.
pub const MIN_FONT_PX: u32 = 14;

/// The text block never starts left of this x-coordinate.
pub const MIN_LEFT_MARGIN: i32 = 10;

/// The shadow of a line is drawn this far down and right of the line.
pub const SHADOW_OFFSET: i32 = 2;

/// Opacity of the shadow.
pub const SHADOW_ALPHA: u8 = 180;

/// One line of text to draw.
#[derive(Clone, Copy, Debug, PartialEq, Eq, Structural)]
pub struct DrawCommand {
    /// Index of the line in the list of lines.
    pub line: usize,
    /// Left edge of the text.
    pub x: i32,
    /// Top edge of the text.
    pub y: i32,
    pub red: u8,
    pub green: u8,
    pub blue: u8,
    pub alpha: u8,
}

/// `x` limited to the range of `u32`.
pub open spec fn within_u32(x: int) -> int {
    if x > u32::MAX {
        u32::MAX as int
    } else if x < 0 {
        0
    } else {
        x
    }
}

/// `x` limited to at most `i32::MAX`.
pub open spec fn at_most_i32(x: int) -> int {
    if x > i32::MAX {
        i32::MAX as int
    } else {
        x
    }
}

/// Scaling a `sw` by `sh` picture to the width of a `tw` by `th` screen covers
/// the height too.
pub open spec fn width_governs(sw: int, sh: int, tw: int, th: int) -> bool {
    tw * sh >= th * sw
}

/// Width of a `sw` by `sh` picture scaled by the larger of `tw / sw` and
/// `th / sh`, in whole pixels.
pub open spec fn cover_width(sw: int, sh: int, tw: int, th: int) -> int {
    if width_governs(sw, sh, tw, th) {
        tw
    } else {
        (sw * th) / sh
    }
}

/// Height of a `sw` by `sh` picture scaled by the larger of `tw / sw` and
/// `th / sh`, in whole pixels.
pub open spec fn cover_height(sw: int, sh: int, tw: int, th: int) -> int {
    if width_governs(sw, sh, tw, th) {
        (sh * tw) / sw
    } else {
        th
    }
}

/// Where a span of `size` pixels starts when it is centred on a span of
/// `target` pixels: half the difference, rounded towards zero.
pub open spec fn centered_offset(target: int, size: int) -> int {
    if size >= target {
        -((size - target) / 2)
    } else {
        (target - size) / 2
    }
}

/// Font size for a screen of height `h`: a fortieth of the height, rounded to
/// the nearest pixel, and at least `MIN_FONT_PX`.
pub open spec fn font_size(h: int) -> int {
    if (h + 20) / 40 < MIN_FONT_PX {
        MIN_FONT_PX as int
    } else {
        (h + 20) / 40
    }
}

/// The margin kept on the right and at the top: a twentieth of the screen.
pub open spec fn margin(extent: int) -> int {
    extent / 20
}

/// The largest of `widths`, and 0 where there is none.
pub open spec fn widest_of(widths: Seq<u32>) -> int
    decreases widths.len(),
{
    if widths.len() == 0 {
        0
    } else if widths.last() > widest_of(widths.drop_last()) {
        widths.last() as int
    } else {
        widest_of(widths.drop_last())
    }
}

/// Left edge of a text block `widest` pixels wide on a screen `w` pixels wide:
/// its right edge keeps the margin, but it never starts left of
/// `MIN_LEFT_MARGIN`.
pub open spec fn text_left(w: int, widest: int) -> int {
    if w - margin(w) - widest < MIN_LEFT_MARGIN {
        MIN_LEFT_MARGIN as int
    } else {
        at_most_i32(w - margin(w) - widest)
    }
}

/// Top edge of line number `i` on a screen of height `h`: lines are 1.3 font
/// sizes apart, the first one at the top margin.
pub open spec fn line_top(h: int, i: int) -> int {
    at_most_i32(margin(h) + (i * font_size(h) * 13) / 10)
}

/// The command that draws the shadow of line `i`.
pub open spec fn shadow_command(w: int, h: int, widest: int, i: int) -> DrawCommand {
    DrawCommand {
        line: i as usize,
        x: at_most_i32(text_left(w, widest) + SHADOW_OFFSET) as i32,
        y: at_most_i32(line_top(h, i) + SHADOW_OFFSET) as i32,
        red: 0,
        green: 0,
        blue: 0,
        alpha: SHADOW_ALPHA,
    }
}

/// The command that draws line `i` itself.
pub open spec fn face_command(w: int, h: int, widest: int, i: int) -> DrawCommand {
    DrawCommand {
        line: i as usize,
        x: text_left(w, widest) as i32,
        y: line_top(h, i) as i32,
        red: 255,
        green: 255,
        blue: 255,
        alpha: 255,
    }
}

/// The commands that draw `count` lines, in drawing order: for each line from
/// the first on, its shadow and then the line itself.
pub open spec fn draw_commands(w: int, h: int, widest: int, count: int) -> Seq<DrawCommand> {
    Seq::new(
        (2 * count) as nat,
        |k: int|
            if k % 2 == 0 {
                shadow_command(w, h, widest, k / 2)
            } else {
                face_command(w, h, widest, k / 2)
            },
    )
}

/// The scaled picture covers the screen and fits it exactly on one axis. Both
/// axes are scaled alike, up to the fraction of a pixel that is cut off: the
/// cross products of old and new sides differ by less than one old side, and
/// new side over old side gives the same whole number on both axes.
pub proof fn lemma_cover_fit(sw: int, sh: int, tw: int, th: int)
    requires
        sw > 0,
        sh > 0,
        tw >= 0,
        th >= 0,
    ensures
        cover_width(sw, sh, tw, th) >= tw,
        cover_height(sw, sh, tw, th) >= th,
        cover_width(sw, sh, tw, th) == tw || cover_height(sw, sh, tw, th) == th,
        -sh < cover_width(sw, sh, tw, th) * sh - cover_height(sw, sh, tw, th) * sw < sw,
        cover_width(sw, sh, tw, th) / sw == cover_height(sw, sh, tw, th) / sh,
{
    if width_governs(sw, sh, tw, th) {
        lemma_scaled_axis(sw, sh, tw, th);
    } else {
        lemma_scaled_axis(sh, sw, th, tw);
    }
}

/// Scaling the length `b` by `t / a`, where that is the larger factor.
proof fn lemma_scaled_axis(a: int, b: int, t: int, u: int)
    requires
        a > 0,
        b > 0,
        t >= 0,
        u >= 0,
        t * b >= u * a,
    ensures
        (b * t) / a >= u,
        0 <= t * b - ((b * t) / a) * a < a,
        t / a == ((b * t) / a) / b,
{
    let r = (b * t) / a;
    assert(r * a <= b * t < r * a + a) by (nonlinear_arith)
        requires
            a > 0,
            r == (b * t) / a,
    ;
    assert(b * t == t * b) by (nonlinear_arith);
    assert(r >= u) by (nonlinear_arith)
        requires
            a > 0,
            b * t < r * a + a,
            b * t >= u * a,
    ;
    let q = t / a;
    assert(q * a <= t < q * a + a) by (nonlinear_arith)
        requires
            a > 0,
            q == t / a,
    ;
    assert(r >= q * b) by (nonlinear_arith)
        requires
            a > 0,
            b > 0,
            q * a <= t,
            b * t < r * a + a,
    ;
    assert(r < q * b + b) by (nonlinear_arith)
        requires
            a > 0,
            b > 0,
            t < q * a + a,
            r * a <= b * t,
    ;
    assert(r / b == q) by (nonlinear_arith)
        requires
            b > 0,
            q * b <= r < q * b + b,
    ;
}

/// The size to which a `sw` by `sh` picture is scaled so that it covers a
/// `tw` by `th` screen, each length limited to the range of `u32`.
pub fn cover_size(sw: u32, sh: u32, tw: u32, th: u32) -> (size: (u32, u32))
    requires
        sw > 0,
        sh > 0,
    ensures
        size.0 == within_u32(cover_width(sw as int, sh as int, tw as int, th as int)),
        size.1 == within_u32(cover_height(sw as int, sh as int, tw as int, th as int)),
        size.0 >= tw,
        size.1 >= th,
        size.0 == tw || size.1 == th,
        cover_width(sw as int, sh as int, tw as int, th as int) <= u32::MAX && cover_height(
            sw as int,
            sh as int,
            tw as int,
            th as int,
        ) <= u32::MAX ==> {
            &&& -sh < size.0 * sh - size.1 * sw < sw
            &&& size.0 / sw == size.1 / sh
        },
{
    proof {
        lemma_cover_fit(sw as int, sh as int, tw as int, th as int);
        assert(tw * sh <= 0xFFFF_FFFF * 0xFFFF_FFFF) by (nonlinear_arith)
            requires
                0 <= tw <= 0xFFFF_FFFF,
                0 <= sh <= 0xFFFF_FFFF,
        ;
        assert(th * sw <= 0xFFFF_FFFF * 0xFFFF_FFFF) by (nonlinear_arith)
            requires
                0 <= th <= 0xFFFF_FFFF,
                0 <= sw <= 0xFFFF_FFFF,
        ;
        assert(tw * sh == sh * tw) by (nonlinear_arith);
        assert(th * sw == sw * th) by (nonlinear_arith);
    }
    let by_width: u64 = (tw as u64) * (sh as u64);
    let by_height: u64 = (th as u64) * (sw as u64);
    if by_width >= by_height {
        let scaled: u64 = by_width / (sw as u64);
        (tw, limit_u32(scaled))
    } else {
        let scaled: u64 = by_height / (sh as u64);
        (limit_u32(scaled), th)
    }
}

/// `x` limited to the range of `u32`.
pub fn limit_u32(x: u64) -> (r: u32)
    ensures
        r == within_u32(x as int),
{
    if x > 0xFFFF_FFFF {
        0xFFFF_FFFF
    } else {
        x as u32
    }
}

/// Where a span of `size` pixels starts when it is centred on a span of
/// `target` pixels.
pub fn center_offset(target: u32, size: u32) -> (offset: i64)
    ensures
        offset == centered_offset(target as int, size as int),
{
    if size >= target {
        let half: u32 = (size - target) / 2;
        -(half as i64)
    } else {
        let half: u32 = (target - size) / 2;
        half as i64
    }
}

/// The font size for a screen of height `h`.
pub fn font_px(h: u32) -> (px: u32)
    ensures
        px == font_size(h as int),
        px >= MIN_FONT_PX,
{
    let rounded: u64 = ((h as u64) + 20) / 40;
    if rounded < (MIN_FONT_PX as u64) {
        MIN_FONT_PX
    } else {
        rounded as u32
    }
}

/// The largest of the measured line widths, and 0 where there is no line.
pub fn widest(widths: &Vec<u32>) -> (most: u32)
    ensures
        most == widest_of(widths@),
        forall|i: int| 0 <= i < widths.len() ==> widths[i] <= most,
{
    let mut most: u32 = 0;
    let mut i: usize = 0;
    while i < widths.len()
        invariant
            i <= widths.len(),
            most == widest_of(widths@.take(i as int)),
            forall|k: int| 0 <= k < i ==> widths[k] <= most,
        decreases widths.len() - i,
    {
        proof {
            assert(widths@.take(i + 1).drop_last() =~= widths@.take(i as int));
        }
        if widths[i] > most {
            most = widths[i];
        }
        i = i + 1;
    }
    proof {
        assert(widths@.take(widths.len() as int) =~= widths@);
    }
    most
}

/// Left edge of a text block `widest` pixels wide on a screen `w` pixels wide.
pub fn text_start_x(w: u32, widest: u32) -> (x: i32)
    ensures
        x == text_left(w as int, widest as int),
        x >= MIN_LEFT_MARGIN,
{
    let room: i64 = (w as i64) - ((w / 20) as i64) - (widest as i64);
    if room < (MIN_LEFT_MARGIN as i64) {
        MIN_LEFT_MARGIN
    } else if room > 0x7FFF_FFFF {
        0x7FFF_FFFF
    } else {
        room as i32
    }
}

/// Top edge of line number `i` on a screen of height `h`.
pub fn line_y(h: u32, i: usize) -> (y: i32)
    ensures
        y == line_top(h as int, i as int),
        y >= 0,
{
    let font: u128 = font_px(h) as u128;
    proof {
        assert(i * font <= 0xFFFF_FFFF_FFFF_FFFF * 0xFFFF_FFFF) by (nonlinear_arith)
            requires
                0 <= i <= 0xFFFF_FFFF_FFFF_FFFF,
                0 <= font <= 0xFFFF_FFFF,
        ;
    }
    let advance: u128 = ((i as u128) * font * 13) / 10;
    let top: u128 = ((h / 20) as u128) + advance;
    if top > 0x7FFF_FFFF {
        0x7FFF_FFFF
    } else {
        top as i32
    }
}

/// `v + SHADOW_OFFSET`, limited to at most `i32::MAX`.
fn shadowed(v: i32) -> (r: i32)
    ensures
        r == at_most_i32(v + SHADOW_OFFSET),
{
    if v > 0x7FFF_FFFF - SHADOW_OFFSET {
        0x7FFF_FFFF
    } else {
        v + SHADOW_OFFSET
    }
}

/// The commands that draw `count` lines, the widest of them `widest` pixels
/// wide, on a screen of `w` by `h` pixels.
pub fn draw_plan(w: u32, h: u32, widest: u32, count: usize) -> (plan: Vec<DrawCommand>)
    ensures
        plan@ == draw_commands(w as int, h as int, widest as int, count as int),
        forall|k: int| 0 <= k < plan.len() ==> (#[trigger] plan[k]).x >= MIN_LEFT_MARGIN,
{
    let x = text_start_x(w, widest);
    let mut plan: Vec<DrawCommand> = Vec::new();
    let mut i: usize = 0;
    while i < count
        invariant
            i <= count,
            x == text_left(w as int, widest as int),
            x >= MIN_LEFT_MARGIN,
            plan@ == draw_commands(w as int, h as int, widest as int, i as int),
            forall|k: int| 0 <= k < plan.len() ==> (#[trigger] plan[k]).x >= MIN_LEFT_MARGIN,
        decreases count - i,
    {
        let y = line_y(h, i);
        let shadow = DrawCommand {
            line: i,
            x: shadowed(x),
            y: shadowed(y),
            red: 0,
            green: 0,
            blue: 0,
            alpha: SHADOW_ALPHA,
        };
        let face = DrawCommand { line: i, x, y, red: 255, green: 255, blue: 255, alpha: 255 };
        let ghost before = plan@;
        plan.push(shadow);
        plan.push(face);
        proof {
            let next = draw_commands(w as int, h as int, widest as int, i + 1);
            assert(shadow == shadow_command(w as int, h as int, widest as int, i as int));
            assert(face == face_command(w as int, h as int, widest as int, i as int));
            assert(plan@ =~= next) by {
                assert(plan@.len() == next.len());
                assert forall|k: int| 0 <= k < next.len() implies plan@[k] == next[k] by {
                    if k < 2 * i {
                        assert(plan@[k] == before[k]);
                    }
                }
            }
        }
        i = i + 1;
    }
    plan
}

} // verus!
