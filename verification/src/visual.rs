//! Dynamic SVG key art for dual battery bars.
//!
//! Every coordinate is held as a whole number of hundredths (tenths for the
//! percentage labels, hundred-thousandths for the logo scale) and printed
//! with that many decimal places.

use base64::Engine;
use vstd::prelude::*;
use vstd::string::*;
use vstd::utf8::*;

use crate::battery::BatteryLevels;
use crate::text::{
    dec, dec_string, fixed, fixed_string, frac_digits, lemma_round_div_close, pow10, round_div,
    round_div_i64, signed_fixed, signed_fixed_string,
};

verus! {

/// Number of blocks in each bar.
pub const BLOCKS: u8 = 5;

/// Opening tag of the key art.
pub const SVG_OPEN: &'static str = "<svg xmlns=\"http://www.w3.org/2000/svg\" viewBox=\"0 0 72 72\" shape-rendering=\"geometricPrecision\">";

/// Rounded dark key background.
pub const KEY_BACKGROUND: &'static str = "<rect width=\"72\" height=\"72\" rx=\"8\" fill=\"#141418\"/>";

/// Opening of the loading and error images: plain SVG tag and background.
pub const PLAIN_KEY_OPEN: &'static str = "<svg xmlns=\"http://www.w3.org/2000/svg\" viewBox=\"0 0 72 72\"><rect width=\"72\" height=\"72\" rx=\"8\" fill=\"#141418\"/>";

/// Faceted Dygma brand mark, drawn in a 56 by 56 box.
pub const DYGMA_LOGO_PATHS: &'static str = "<path fill=\"#F43F27\" d=\"M42.5 6.8c-0.2 0-0.5 0-0.8 0-0.5 0-1.1 0-1.6 0-3.3 0.1-6.5 0.7-9.5 1.7l10 3.7 2.3 0.9 2.1 0.8-3.5 15.6c-1.4 6.9-3.9 13.4-7.3 19.4l6.5-7.4 2.3-2.6 0.3-0.3 3.4-3.9c0.5-0.6 0.9-1.2 1.1-2l1.2-4 5.9-19.6C51 7.7 46.8 6.9 42.5 6.8z\"/>\n<path fill=\"#E11D48\" d=\"M42.5 6.8c-0.2 0-0.5 0-0.8 0-0.5 0-1.1 0-1.6 0-3.3 0.1-6.5 0.7-9.5 1.7l10 3.7 2.3 0.9 2.1 0.8 9.7-4.6C51 7.7 46.8 6.9 42.5 6.8z\"/>\n<path fill=\"#7C1D6F\" d=\"M9.2 22.8c0.5 0.5 0.9 1.1 1.4 1.6 1.1 1.1 2.2 2.2 3.3 3.2l-1.4-6.1L12 18.9l-1.1-5L28 7.5c3.7-1.3 7.8-2.1 11.9-2.1h0.2c0.7 0 1.5 0 2.2 0.1 1 0.1 2 0.2 2.9 0.3l-3-1.1-2.5-0.9-5.6-2-4.3-1.5c-1.1-0.4-2.4-0.4-3.5 0L21.4 2 5.9 7.5 1.2 9.2C3.1 14.2 5.8 18.8 9.2 22.8z\"/>\n<path fill=\"#4C0783\" d=\"M9.2 22.8c0.5 0.5 0.9 1.1 1.4 1.6 1.1 1.1 2.2 2.2 3.3 3.2l-1.4-6.1L12 18.9l-1.1-5L1.2 9.2C3.1 14.2 5.8 18.8 9.2 22.8z\"/>\n<path fill=\"#A80B2D\" d=\"M33.6 37.5l-2.7 2.3L28 42.1 14.9 31.4c-1.9-1.5-3.6-3.2-5.3-5.1-0.5-0.5-1-1.1-1.4-1.7-1.7-2.2-3.2-4.5-4.5-6.9l2.7 9.1 0.3 1.1 0.9 3.1 0.6 1.9c0.2 0.7 0.6 1.4 1.1 2 0.5 0.5 1.1 1.3 1.9 2.2 0.5 0.6 1.1 1.3 1.7 2 5.7 6.5 14.7 16.8 15 17.1 4.8-6.7 8.5-14.4 10.6-22.6L33.6 37.5z\"/>\n<path fill=\"#8E0939\" d=\"M33.6 37.5l-2.7 2.3L28 42.1v13.9c4.8-6.7 8.5-14.4 10.6-22.6L33.6 37.5z\"/>\n";

/// Caption of the loading image and the closing tag.
pub const LOADING_CAPTION: &'static str = "<text x=\"36\" y=\"58\" text-anchor=\"middle\" fill=\"#a1a1aa\" font-family=\"Segoe UI,system-ui,sans-serif\" font-size=\"12\" font-weight=\"600\">\u{2026}</text></svg>";

/// Caption of the error image and the closing tag.
pub const ERROR_CAPTION: &'static str = "<text x=\"36\" y=\"50\" text-anchor=\"middle\" fill=\"#f87171\" font-family=\"Segoe UI,system-ui,sans-serif\" font-size=\"11\" font-weight=\"700\">ERR</text>\n<text x=\"36\" y=\"63\" text-anchor=\"middle\" fill=\"#fca5a5\" font-family=\"Segoe UI,system-ui,sans-serif\" font-size=\"10\">COM</text></svg>";

/// Prefix of a base64 SVG data URI.
pub const SVG_DATA_URI_PREFIX: &'static str = "data:image/svg+xml;base64,";

// ---------------------------------------------------------------------------
// Tiers and colors
// ---------------------------------------------------------------------------

/// A charge reading capped at 100 %.
pub open spec fn capped_percent(pct: u8) -> u8 {
    if pct < 100 {
        pct
    } else {
        100
    }
}

/// Filled block count for a charge reading: 0 only when empty, then one
/// block per started 20 %, readings above 100 counting as 100.
pub open spec fn blocks_spec(pct: u8) -> u8 {
    let p = capped_percent(pct);
    if p == 0 {
        0
    } else if p <= 20 {
        1
    } else if p <= 40 {
        2
    } else if p <= 60 {
        3
    } else if p <= 80 {
        4
    } else {
        5
    }
}

/// Fill color of a bar with this many filled blocks.
pub open spec fn block_color(blocks: u8) -> Seq<char> {
    if blocks == 5 {
        "#22c55e"@
    } else if blocks == 4 {
        "#a3e635"@
    } else if blocks == 3 {
        "#eab308"@
    } else if blocks == 2 {
        "#f97316"@
    } else if blocks == 1 {
        "#ef4444"@
    } else {
        "#3f3f46"@
    }
}

/// Whether a Focus status code means that side is charging.
pub open spec fn charging_spec(status: Option<u8>) -> bool {
    status == Some(1u8) || status == Some(2u8)
}

/// Map charge % to filled block count (1..=5), 0 only when empty.
///
/// - 5: charge > 80
/// - 4: 60 < charge <= 80
/// - 3: 40 < charge <= 60
/// - 2: 20 < charge <= 40
/// - 1: 0 < charge <= 20
/// - 0: charge == 0
pub fn blocks_for_percent(pct: u8) -> (blocks: u8)
    ensures
        blocks == blocks_spec(pct),
{
    match pct.min(100) {
        0 => 0,
        1..=20 => 1,
        21..=40 => 2,
        41..=60 => 3,
        61..=80 => 4,
        _ => 5,
    }
}

/// Color for the filled blocks of a bar at this block count.
pub fn color_for_blocks(blocks: u8) -> (color: &'static str)
    ensures
        color@ == block_color(blocks),
{
    match blocks {
        5 => "#22c55e",
        4 => "#a3e635",
        3 => "#eab308",
        2 => "#f97316",
        1 => "#ef4444",
        _ => "#3f3f46",
    }
}

/// Whether Focus status indicates charging for that side.
///
/// Older Focus docs list `2 = charging`, `1 = discharging`. On Defy FW 2.2.1
/// the status reads `0` on RF battery and `1` while a side is on charge, so
/// both `1` and `2` are treated as charging.
pub fn is_charging(status: Option<u8>) -> (charging: bool)
    ensures
        charging == charging_spec(status),
{
    match status {
        Some(1) | Some(2) => true,
        _ => false,
    }
}

// ---------------------------------------------------------------------------
// Bars
// ---------------------------------------------------------------------------
//
// Bar geometry is in signed hundredths of a unit; the bolt centre is in
// signed thousandths, so that the centre of any column can be given.

/// Largest coordinate magnitude (in hundredths) the drawing helpers take, so
/// that their arithmetic stays within 64-bit integers.
pub const COORD_LIMIT: i64 = 1_000_000_000_000_000;

/// Which side of its column a bar's blocks hug.
#[derive(Clone, Copy, Debug, PartialEq, Eq)]
pub enum Align {
    Left,
    Right,
}

/// Whether a coordinate is within the drawing helpers' range.
pub open spec fn in_range(v: int) -> bool {
    -COORD_LIMIT <= v <= COORD_LIMIT
}

/// Width of block `i` of a column `col_w` wide: blocks taper linearly from
/// 42 % of the column at the bottom (index 0) to the full column at the top
/// (index 4), rounded to the nearest hundredth, ties to even.
pub open spec fn block_width(col_w: int, i: int) -> int {
    round_div(col_w * (168 + 58 * i), 400)
}

/// Left edge of block `i`: left-aligned columns start at `col_x`;
/// right-aligned ones end exactly at the column's right edge.
pub open spec fn block_x(col_x: int, col_w: int, i: int, align: Align) -> int {
    match align {
        Align::Left => col_x,
        Align::Right => col_x + col_w - block_width(col_w, i),
    }
}

/// Top edge of block `i`: the bottom block (index 0) is the lowest, blocks
/// are `block_h` high and `gap` apart.
pub open spec fn block_y(top: int, block_h: int, gap: int, i: int) -> int {
    top + (4 - i) * (block_h + gap)
}

/// Fill of block `i` in a bar with `filled` filled blocks.
pub open spec fn block_fill(filled: u8, i: int) -> Seq<char> {
    if i < filled {
        block_color(filled)
    } else {
        "#2a2a30"@
    }
}

/// One block of a bar.
pub open spec fn rect_text(x: int, y: int, w: int, h: int, fill: Seq<char>) -> Seq<char> {
    "<rect x=\""@ + signed_fixed(x, 2) + "\" y=\""@ + signed_fixed(y, 2) + "\" width=\""@
        + signed_fixed(w, 2) + "\" height=\""@ + signed_fixed(h, 2) + "\" rx=\"2\" fill=\""@ + fill
        + "\" stroke=\"#3f3f46\" stroke-width=\"0.6\"/>"@
}

/// Block `i` of a bar.
pub open spec fn block_text(
    col_x: int,
    top: int,
    col_w: int,
    block_h: int,
    gap: int,
    filled: u8,
    align: Align,
    i: int,
) -> Seq<char> {
    rect_text(
        block_x(col_x, col_w, i, align),
        block_y(top, block_h, gap, i),
        block_width(col_w, i),
        block_h,
        block_fill(filled, i),
    )
}

/// The first `n` blocks of a bar, bottom to top.
pub open spec fn bar_rects(
    col_x: int,
    top: int,
    col_w: int,
    block_h: int,
    gap: int,
    filled: u8,
    align: Align,
    n: nat,
) -> Seq<char>
    decreases n,
{
    if n == 0 {
        seq![]
    } else {
        bar_rects(col_x, top, col_w, block_h, gap, filled, align, (n - 1) as nat) + block_text(
            col_x,
            top,
            col_w,
            block_h,
            gap,
            filled,
            align,
            n - 1,
        )
    }
}

/// Horizontal offset of bolt corner `k` from the bolt centre, in thousandths
/// (the outline's unit coordinates scaled by 0.72).
pub open spec fn bolt_dx(k: int) -> int {
    if k == 0 {
        1440
    } else if k == 1 {
        -2520
    } else if k == 2 {
        -360
    } else if k == 3 {
        -1800
    } else if k == 4 {
        2520
    } else {
        576
    }
}

/// Vertical offset of bolt corner `k` from the bolt centre, in thousandths.
pub open spec fn bolt_dy(k: int) -> int {
    if k == 0 {
        -5040
    } else if k == 1 || k == 2 {
        360
    } else if k == 3 {
        5040
    } else {
        -144
    }
}

/// Corner `k` of the bolt centred at `(cx, cy)` (thousandths), printed to
/// the hundredth.
pub open spec fn bolt_point(cx: int, cy: int, k: int) -> Seq<char> {
    signed_fixed(round_div(cx + bolt_dx(k), 10), 2) + " "@ + signed_fixed(
        round_div(cy + bolt_dy(k), 10),
        2,
    )
}

/// The first `n` corners of the bolt outline, joined by line commands.
pub open spec fn bolt_points(cx: int, cy: int, n: nat) -> Seq<char>
    decreases n,
{
    if n == 0 {
        seq![]
    } else if n == 1 {
        bolt_point(cx, cy, 0)
    } else {
        bolt_points(cx, cy, (n - 1) as nat) + " L"@ + bolt_point(cx, cy, n - 1)
    }
}

/// A lightning bolt of this color centred at `(cx, cy)` (thousandths).
pub open spec fn bolt_text(cx: int, cy: int, color: Seq<char>) -> Seq<char> {
    "<path fill=\""@ + color + "\" stroke=\"#1a1a1e\" stroke-width=\"0.4\" d=\"M"@ + bolt_points(
        cx,
        cy,
        6,
    ) + " Z\"/>"@
}

/// A bar of five blocks in the column at `col_x`, `col_w` wide, and, while
/// that side is charging, a yellow bolt 6.5 units above the column centre.
pub open spec fn bar_text(
    col_x: int,
    top: int,
    col_w: int,
    block_h: int,
    gap: int,
    filled: u8,
    align: Align,
    charging: bool,
) -> Seq<char> {
    bar_rects(col_x, top, col_w, block_h, gap, filled, align, 5) + if charging {
        bolt_text(10 * col_x + 5 * col_w, 10 * top - 6500, "#fde047"@)
    } else {
        seq![]
    }
}

fn bolt_point_string(cx: i64, cy: i64, k: i64) -> (s: String)
    requires
        20 * -COORD_LIMIT <= cx <= 20 * COORD_LIMIT,
        20 * -COORD_LIMIT <= cy <= 20 * COORD_LIMIT,
        0 <= k < 6,
    ensures
        s@ == bolt_point(cx as int, cy as int, k as int),
{
    let (dx, dy): (i64, i64) = if k == 0 {
        (1440, -5040)
    } else if k == 1 {
        (-2520, 360)
    } else if k == 2 {
        (-360, 360)
    } else if k == 3 {
        (-1800, 5040)
    } else if k == 4 {
        (2520, -144)
    } else {
        (576, -144)
    };
    let x = round_div_i64(cx + dx, 10);
    let y = round_div_i64(cy + dy, 10);
    proof {
        lemma_round_div_close(cx + dx, 10);
        lemma_round_div_close(cy + dy, 10);
    }
    let mut s = signed_fixed_string(x, 2);
    s.append(" ");
    s.append(signed_fixed_string(y, 2).as_str());
    s
}

/// Appends a lightning bolt of `color` centred at `(cx, cy)`, given in
/// signed thousandths of a unit.
pub fn draw_bolt(out: &mut String, cx: i64, cy: i64, color: &str)
    requires
        20 * -COORD_LIMIT <= cx <= 20 * COORD_LIMIT,
        20 * -COORD_LIMIT <= cy <= 20 * COORD_LIMIT,
    ensures
        final(out)@ == old(out)@ + bolt_text(cx as int, cy as int, color@),
{
    let mut points = bolt_point_string(cx, cy, 0);
    let mut k: i64 = 1;
    while k < 6
        invariant
            1 <= k <= 6,
            20 * -COORD_LIMIT <= cx <= 20 * COORD_LIMIT,
            20 * -COORD_LIMIT <= cy <= 20 * COORD_LIMIT,
            points@ == bolt_points(cx as int, cy as int, k as nat),
        decreases 6 - k,
    {
        points.append(" L");
        points.append(bolt_point_string(cx, cy, k).as_str());
        k = k + 1;
    }
    let mut s = "<path fill=\"".to_owned();
    s.append(color);
    s.append("\" stroke=\"#1a1a1e\" stroke-width=\"0.4\" d=\"M");
    s.append(points.as_str());
    s.append(" Z\"/>");
    out.append(s.as_str());
}

fn block_string(
    col_x: i64,
    top: i64,
    col_w: i64,
    block_h: i64,
    gap: i64,
    filled: u8,
    fill: &str,
    align: Align,
    i: i64,
) -> (s: String)
    requires
        in_range(col_x as int),
        in_range(top as int),
        in_range(col_w as int),
        in_range(block_h as int),
        in_range(gap as int),
        0 <= i < 5,
        fill@ == block_color(filled),
    ensures
        s@ == block_text(
            col_x as int,
            top as int,
            col_w as int,
            block_h as int,
            gap as int,
            filled,
            align,
            i as int,
        ),
{
    assert(-400 * COORD_LIMIT <= col_w * (168 + 58 * i) <= 400 * COORD_LIMIT) by (nonlinear_arith)
        requires
            in_range(col_w as int),
            0 <= i < 5,
    ;
    let w = round_div_i64(col_w * (168 + 58 * i), 400);
    proof {
        lemma_round_div_close(col_w * (168 + 58 * i), 400);
    }
    let x = match align {
        Align::Left => col_x,
        Align::Right => col_x + col_w - w,
    };
    assert(-8 * COORD_LIMIT <= (4 - i) * (block_h + gap) <= 8 * COORD_LIMIT) by (nonlinear_arith)
        requires
            in_range(block_h as int),
            in_range(gap as int),
            0 <= i < 5,
    ;
    let y = top + (4 - i) * (block_h + gap);
    let color = if i < filled as i64 {
        fill
    } else {
        "#2a2a30"
    };
    let mut s = "<rect x=\"".to_owned();
    s.append(signed_fixed_string(x, 2).as_str());
    s.append("\" y=\"");
    s.append(signed_fixed_string(y, 2).as_str());
    s.append("\" width=\"");
    s.append(signed_fixed_string(w, 2).as_str());
    s.append("\" height=\"");
    s.append(signed_fixed_string(block_h, 2).as_str());
    s.append("\" rx=\"2\" fill=\"");
    s.append(color);
    s.append("\" stroke=\"#3f3f46\" stroke-width=\"0.6\"/>");
    s
}

/// Appends a bar of five blocks in the column at `col_x` (`col_w` wide, its
/// top at `top`, blocks `block_h` high and `gap` apart), `filled` of them in
/// the tier color, with a bolt above while charging. Positions are signed
/// hundredths of a unit.
pub fn draw_bar(
    out: &mut String,
    col_x: i64,
    top: i64,
    col_w: i64,
    block_h: i64,
    gap: i64,
    filled: u8,
    align: Align,
    charging: bool,
)
    requires
        in_range(col_x as int),
        in_range(top as int),
        in_range(col_w as int),
        in_range(block_h as int),
        in_range(gap as int),
    ensures
        final(out)@ == old(out)@ + bar_text(
            col_x as int,
            top as int,
            col_w as int,
            block_h as int,
            gap as int,
            filled,
            align,
            charging,
        ),
{
    let fill = color_for_blocks(filled);
    let mut s = String::new();
    let mut i: i64 = 0;
    while i < 5
        invariant
            0 <= i <= 5,
            in_range(col_x as int),
            in_range(top as int),
            in_range(col_w as int),
            in_range(block_h as int),
            in_range(gap as int),
            fill@ == block_color(filled),
            s@ == bar_rects(
                col_x as int,
                top as int,
                col_w as int,
                block_h as int,
                gap as int,
                filled,
                align,
                i as nat,
            ),
        decreases 5 - i,
    {
        let block = block_string(col_x, top, col_w, block_h, gap, filled, fill, align, i);
        s.append(block.as_str());
        i = i + 1;
    }
    if charging {
        draw_bolt(&mut s, 10 * col_x + 5 * col_w, 10 * top - 6500, "#fde047");
    } else {
        assert(s@ =~= s@ + Seq::<char>::empty());
    }
    out.append(s.as_str());
}

// ---------------------------------------------------------------------------
// Logo, labels and whole images
// ---------------------------------------------------------------------------

/// Scale of the 56-unit brand mark drawn `size` units wide, in
/// hundred-thousandths, rounded to nearest.
pub open spec fn logo_scale(size: nat) -> nat {
    (size * 100000 + 28) / 56
}

/// Brand mark of `size` units centred at `(cx, cy)` (in hundredths).
pub open spec fn logo_text(cx: nat, cy: nat, size: nat) -> Seq<char> {
    "<g transform=\"translate("@ + fixed((cx - size * 50) as nat, 2) + " "@ + fixed(
        (cy - size * 50) as nat,
        2,
    ) + ") scale("@ + fixed(logo_scale(size), 5) + ")\" aria-label=\"Dygma\">"@ + DYGMA_LOGO_PATHS@
        + "</g>"@
}

/// A percentage label (a bare number) centred at `x` tenths, on the label
/// baseline 67.0.
pub open spec fn number_text(x: nat, n: nat) -> Seq<char> {
    "<text x=\""@ + fixed(x, 1) + "\" y=\""@ + fixed(670, 1)
        + "\" text-anchor=\"middle\" fill=\"#e4e4e7\" font-family=\"Segoe UI,system-ui,sans-serif\" font-size=\"9\" font-weight=\"600\">"@
        + dec(n) + "</text>"@
}

/// Filled blocks shown for one side: none while it charges, since the
/// fuel gauge is unreliable then.
pub open spec fn side_blocks(pct: u8, status: Option<u8>) -> u8 {
    if charging_spec(status) {
        0
    } else {
        blocks_spec(pct)
    }
}

/// Top of both bars, in hundredths: lower when a bolt must fit above.
pub open spec fn bars_top(levels: BatteryLevels) -> nat {
    if charging_spec(levels.left_status) || charging_spec(levels.right_status) {
        1400
    } else {
        800
    }
}

/// Height of one block, in hundredths: the key height less the top and
/// bottom padding (more room when numbers are shown) and four 2-unit gaps,
/// shared by five blocks.
pub open spec fn block_height(levels: BatteryLevels, show_percentage: bool) -> nat {
    let bottom: nat = if show_percentage {
        1800
    } else {
        1000
    };
    ((7200 - bars_top(levels) - bottom - 800) / 5) as nat
}

/// The labels under the bars: only with `show_percentage`, and only for a
/// side that is not charging; readings above 100 print as 100.
pub open spec fn percent_labels(levels: BatteryLevels, show_percentage: bool) -> Seq<char> {
    if show_percentage {
        (if !charging_spec(levels.left_status) {
            number_text(185, capped_percent(levels.left) as nat)
        } else {
            seq![]
        }) + (if !charging_spec(levels.right_status) {
            number_text(535, capped_percent(levels.right) as nat)
        } else {
            seq![]
        })
    } else {
        seq![]
    }
}

/// Everything inside the key art's `<svg>` element: background, the left
/// and right bars, the centred brand mark and the optional labels.
pub open spec fn levels_svg_body(levels: BatteryLevels, show_percentage: bool) -> Seq<char> {
    KEY_BACKGROUND@ + bar_text(
        600,
        bars_top(levels) as int,
        2500,
        block_height(levels, show_percentage) as int,
        200,
        side_blocks(levels.left, levels.left_status),
        Align::Left,
        charging_spec(levels.left_status),
    ) + bar_text(
        4100,
        bars_top(levels) as int,
        2500,
        block_height(levels, show_percentage) as int,
        200,
        side_blocks(levels.right, levels.right_status),
        Align::Right,
        charging_spec(levels.right_status),
    ) + logo_text(
        3600,
        if show_percentage {
            5800
        } else {
            6200
        },
        if show_percentage {
            11
        } else {
            12
        },
    ) + percent_labels(levels, show_percentage)
}

/// The whole key art.
pub open spec fn levels_svg(levels: BatteryLevels, show_percentage: bool) -> Seq<char> {
    SVG_OPEN@ + levels_svg_body(levels, show_percentage) + "</svg>"@
}

/// The image shown while the first reading is pending.
pub open spec fn loading_svg() -> Seq<char> {
    PLAIN_KEY_OPEN@ + logo_text(3600, 3000, 28) + LOADING_CAPTION@
}

/// The image shown when the keyboard cannot be read.
pub open spec fn error_svg() -> Seq<char> {
    PLAIN_KEY_OPEN@ + logo_text(3600, 2600, 22) + ERROR_CAPTION@
}

/// A base64 data URI for an SVG document.
pub open spec fn svg_data_uri(svg: Seq<char>) -> Seq<char> {
    SVG_DATA_URI_PREFIX@ + base64_standard(encode_utf8(svg))
}

/// The digit of the standard base64 alphabet (`A`-`Z`, `a`-`z`, `0`-`9`,
/// `+`, `/`) for a 6-bit value.
pub open spec fn base64_digit(v: int) -> char {
    if v < 26 {
        (65 + v) as char
    } else if v < 52 {
        (71 + v) as char
    } else if v < 62 {
        (v - 4) as char
    } else if v == 62 {
        '+'
    } else {
        '/'
    }
}

/// The standard base64 encoding (RFC 4648 alphabet, `=` padding): every
/// three bytes become four digits of six bits each, most significant bits
/// first; a last group of one or two bytes is padded with `=` to four.
pub open spec fn base64_standard(bytes: Seq<u8>) -> Seq<char>
    decreases bytes.len(),
{
    if bytes.len() == 0 {
        seq![]
    } else {
        let b0 = bytes[0] as int;
        let b1 = if bytes.len() > 1 { bytes[1] as int } else { 0 };
        let b2 = if bytes.len() > 2 { bytes[2] as int } else { 0 };
        let d0 = base64_digit(b0 / 4);
        let d1 = base64_digit((b0 % 4) * 16 + b1 / 16);
        let d2 = base64_digit((b1 % 16) * 4 + b2 / 64);
        let d3 = base64_digit(b2 % 64);
        if bytes.len() == 1 {
            seq![d0, d1, '=', '=']
        } else if bytes.len() == 2 {
            seq![d0, d1, d2, '=']
        } else {
            seq![d0, d1, d2, d3] + base64_standard(bytes.skip(3))
        }
    }
}

/// The 6-bit value of a standard base64 digit.
pub open spec fn base64_value(c: char) -> int {
    let n = c as int;
    if 65 <= n <= 90 {
        n - 65
    } else if 97 <= n <= 122 {
        n - 71
    } else if 48 <= n <= 57 {
        n + 4
    } else if c == '+' {
        62
    } else {
        63
    }
}

/// Decoding standard base64, four digits at a time; `=` in the third or
/// fourth place ends the bytes of the last group.
pub open spec fn base64_decode(t: Seq<char>) -> Seq<u8>
    decreases t.len(),
{
    if t.len() < 4 {
        seq![]
    } else {
        let s0 = base64_value(t[0]);
        let s1 = base64_value(t[1]);
        let s2 = base64_value(t[2]);
        let s3 = base64_value(t[3]);
        let b0 = (s0 * 4 + s1 / 16) as u8;
        let b1 = ((s1 % 16) * 16 + s2 / 4) as u8;
        let b2 = ((s2 % 4) * 64 + s3) as u8;
        if t[2] == '=' {
            seq![b0]
        } else if t[3] == '=' {
            seq![b0, b1]
        } else {
            seq![b0, b1, b2] + base64_decode(t.skip(4))
        }
    }
}

proof fn lemma_base64_digit(v: int)
    requires
        0 <= v < 64,
    ensures
        base64_value(base64_digit(v)) == v,
        base64_digit(v) != '=',
{
}

/// `t` ends with `tail`.
pub open spec fn ends_with(t: Seq<char>, tail: Seq<char>) -> bool {
    t.len() >= tail.len() && t.subrange(t.len() - tail.len(), t.len() as int) == tail
}

/// The loading image is a plain key with the brand mark and the grey `…`
/// caption; the error image is a plain key with the brand mark and the red
/// `ERR` / `COM` captions. So a key that is loading and a key whose read
/// failed look different.
pub proof fn lemma_status_images()
    ensures
        loading_svg().take(PLAIN_KEY_OPEN@.len() as int) == "<svg xmlns=\"http://www.w3.org/2000/svg\" viewBox=\"0 0 72 72\"><rect width=\"72\" height=\"72\" rx=\"8\" fill=\"#141418\"/>"@,
        error_svg().take(PLAIN_KEY_OPEN@.len() as int) == "<svg xmlns=\"http://www.w3.org/2000/svg\" viewBox=\"0 0 72 72\"><rect width=\"72\" height=\"72\" rx=\"8\" fill=\"#141418\"/>"@,
        ends_with(
            loading_svg(),
            "<text x=\"36\" y=\"58\" text-anchor=\"middle\" fill=\"#a1a1aa\" font-family=\"Segoe UI,system-ui,sans-serif\" font-size=\"12\" font-weight=\"600\">\u{2026}</text></svg>"@,
        ),
        ends_with(
            error_svg(),
            "<text x=\"36\" y=\"50\" text-anchor=\"middle\" fill=\"#f87171\" font-family=\"Segoe UI,system-ui,sans-serif\" font-size=\"11\" font-weight=\"700\">ERR</text>\n<text x=\"36\" y=\"63\" text-anchor=\"middle\" fill=\"#fca5a5\" font-family=\"Segoe UI,system-ui,sans-serif\" font-size=\"10\">COM</text></svg>"@,
        ),
        loading_svg() != error_svg(),
{
    let l = loading_svg();
    let e = error_svg();
    assert(l.take(PLAIN_KEY_OPEN@.len() as int) =~= PLAIN_KEY_OPEN@);
    assert(e.take(PLAIN_KEY_OPEN@.len() as int) =~= PLAIN_KEY_OPEN@);
    assert(l.subrange(l.len() - LOADING_CAPTION@.len(), l.len() as int) =~= LOADING_CAPTION@);
    assert(e.subrange(e.len() - ERROR_CAPTION@.len(), e.len() as int) =~= ERROR_CAPTION@);
    reveal_strlit("</text></svg>");
    reveal_strlit("<text x=\"36\" y=\"58\" text-anchor=\"middle\" fill=\"#a1a1aa\" font-family=\"Segoe UI,system-ui,sans-serif\" font-size=\"12\" font-weight=\"600\">\u{2026}</text></svg>");
    reveal_strlit("<text x=\"36\" y=\"50\" text-anchor=\"middle\" fill=\"#f87171\" font-family=\"Segoe UI,system-ui,sans-serif\" font-size=\"11\" font-weight=\"700\">ERR</text>\n<text x=\"36\" y=\"63\" text-anchor=\"middle\" fill=\"#fca5a5\" font-family=\"Segoe UI,system-ui,sans-serif\" font-size=\"10\">COM</text></svg>");
    // The character before the closing `</text></svg>` is `…` in one and
    // `M` (of `COM`) in the other.
    assert(l[l.len() - 14] == '\u{2026}');
    assert(e[e.len() - 14] == 'M');
}

/// Base64 loses nothing: decoding the encoding of bytes gives the bytes.
pub proof fn lemma_base64_round_trip(bytes: Seq<u8>)
    ensures
        base64_decode(base64_standard(bytes)) == bytes,
    decreases bytes.len(),
{
    if bytes.len() > 0 {
        let b0 = bytes[0] as int;
        let b1 = if bytes.len() > 1 { bytes[1] as int } else { 0 };
        let b2 = if bytes.len() > 2 { bytes[2] as int } else { 0 };
        let v0 = b0 / 4;
        let v1 = (b0 % 4) * 16 + b1 / 16;
        let v2 = (b1 % 16) * 4 + b2 / 64;
        let v3 = b2 % 64;
        assert(0 <= v0 < 64 && 0 <= v1 < 64 && 0 <= v2 < 64 && 0 <= v3 < 64) by (nonlinear_arith)
            requires
                0 <= b0 < 256,
                0 <= b1 < 256,
                0 <= b2 < 256,
                v0 == b0 / 4,
                v1 == (b0 % 4) * 16 + b1 / 16,
                v2 == (b1 % 16) * 4 + b2 / 64,
                v3 == b2 % 64,
        ;
        assert(v0 * 4 + v1 / 16 == b0 && (v1 % 16) * 16 + v2 / 4 == b1 && (v2 % 4) * 64 + v3 == b2)
            by (nonlinear_arith)
            requires
                0 <= b0 < 256,
                0 <= b1 < 256,
                0 <= b2 < 256,
                v0 == b0 / 4,
                v1 == (b0 % 4) * 16 + b1 / 16,
                v2 == (b1 % 16) * 4 + b2 / 64,
                v3 == b2 % 64,
        ;
        lemma_base64_digit(v0);
        lemma_base64_digit(v1);
        lemma_base64_digit(v2);
        lemma_base64_digit(v3);
        let t = base64_standard(bytes);
        if bytes.len() == 1 {
            assert(base64_decode(t) =~= seq![b0 as u8]);
            assert(bytes =~= seq![bytes[0]]);
        } else if bytes.len() == 2 {
            assert(base64_decode(t) =~= seq![b0 as u8, b1 as u8]);
            assert(bytes =~= seq![bytes[0], bytes[1]]);
        } else {
            let rest = bytes.skip(3);
            lemma_base64_round_trip(rest);
            assert(t.skip(4) =~= base64_standard(rest));
            assert(base64_decode(t) =~= seq![b0 as u8, b1 as u8, b2 as u8] + rest);
            assert(bytes =~= seq![bytes[0], bytes[1], bytes[2]] + rest);
        }
    }
}

/// A key image data URI gives its SVG back: after the
/// `data:image/svg+xml;base64,` prefix, decoding the base64 yields exactly
/// the SVG's UTF-8 bytes.
pub proof fn lemma_svg_data_uri_decodes(svg: Seq<char>)
    ensures
        svg_data_uri(svg).take(SVG_DATA_URI_PREFIX@.len() as int) == SVG_DATA_URI_PREFIX@,
        base64_decode(svg_data_uri(svg).skip(SVG_DATA_URI_PREFIX@.len() as int)) == encode_utf8(
            svg,
        ),
{
    let uri = svg_data_uri(svg);
    let n = SVG_DATA_URI_PREFIX@.len() as int;
    assert(uri.take(n) =~= SVG_DATA_URI_PREFIX@);
    assert(uri.skip(n) =~= base64_standard(encode_utf8(svg)));
    lemma_base64_round_trip(encode_utf8(svg));
}

/// Calls `Engine::encode_string` on `base64::engine::general_purpose::STANDARD`
/// (standard alphabet, `=` padding), which appends the encoding of `bytes`
/// to `out`. Claims that what is appended is exactly the standard base64
/// encoding of these bytes, as `base64_standard` spells it out.
#[verifier::external_body]
pub(crate) fn base64_encode_into(bytes: &[u8], out: &mut String)
    ensures
        final(out)@ == old(out)@ + base64_standard(bytes@),
{
    base64::engine::general_purpose::STANDARD.encode_string(bytes, out)
}

fn logo_string(cx: u64, cy: u64, size: u64) -> (s: String)
    requires
        size <= 100,
        size * 50 <= cx <= 100000,
        size * 50 <= cy <= 100000,
    ensures
        s@ == logo_text(cx as nat, cy as nat, size as nat),
{
    let mut s = "<g transform=\"translate(".to_owned();
    s.append(fixed_string(cx - size * 50, 2).as_str());
    s.append(" ");
    s.append(fixed_string(cy - size * 50, 2).as_str());
    s.append(") scale(");
    s.append(fixed_string((size * 100000 + 28) / 56, 5).as_str());
    s.append(")\" aria-label=\"Dygma\">");
    s.append(DYGMA_LOGO_PATHS);
    s.append("</g>");
    s
}

fn number_string(x: u64, n: u8) -> (s: String)
    ensures
        s@ == number_text(x as nat, n as nat),
{
    let mut s = "<text x=\"".to_owned();
    s.append(fixed_string(x, 1).as_str());
    s.append("\" y=\"");
    s.append(fixed_string(670, 1).as_str());
    s.append(
        "\" text-anchor=\"middle\" fill=\"#e4e4e7\" font-family=\"Segoe UI,system-ui,sans-serif\" font-size=\"9\" font-weight=\"600\">",
    );
    s.append(dec_string(n as u64).as_str());
    s.append("</text>");
    s
}

/// The key art without its enclosing `<svg>` element, for nesting inside
/// larger images.
pub fn render_levels_svg_body(levels: &BatteryLevels, show_percentage: bool) -> (s: String)
    ensures
        s@ == levels_svg_body(*levels, show_percentage),
{
    let left_charge = is_charging(levels.left_status);
    let right_charge = is_charging(levels.right_status);
    // While a side is on cable charge the fuel-gauge % is unreliable, so that
    // side keeps empty outlines and a bolt (no filled blocks, no number).
    let left_blocks = if left_charge {
        0
    } else {
        blocks_for_percent(levels.left)
    };
    let right_blocks = if right_charge {
        0
    } else {
        blocks_for_percent(levels.right)
    };
    let pad_top: i64 = if left_charge || right_charge {
        1400
    } else {
        800
    };
    let pad_bottom: i64 = if show_percentage {
        1800
    } else {
        1000
    };
    let block_h: i64 = (7200 - pad_top - pad_bottom - 800) / 5;

    let mut out = KEY_BACKGROUND.to_owned();
    draw_bar(&mut out, 600, pad_top, 2500, block_h, 200, left_blocks, Align::Left, left_charge);
    draw_bar(&mut out, 4100, pad_top, 2500, block_h, 200, right_blocks, Align::Right, right_charge);
    let (logo_cy, logo_size): (u64, u64) = if show_percentage {
        (5800, 11)
    } else {
        (6200, 12)
    };
    out.append(logo_string(3600, logo_cy, logo_size).as_str());
    let mut labels = String::new();
    if show_percentage {
        if !left_charge {
            labels.append(number_string(185, levels.left.min(100)).as_str());
        }
        if !right_charge {
            labels.append(number_string(535, levels.right.min(100)).as_str());
        }
    }
    assert(labels@ =~= percent_labels(*levels, show_percentage));
    out.append(labels.as_str());
    out
}

/// The whole key art for these levels.
pub fn render_levels_svg(levels: &BatteryLevels, show_percentage: bool) -> (s: String)
    ensures
        s@ == levels_svg(*levels, show_percentage),
{
    let mut out = SVG_OPEN.to_owned();
    out.append(render_levels_svg_body(levels, show_percentage).as_str());
    out.append("</svg>");
    out
}

/// A base64 `data:` URI holding an SVG document.
fn svg_data_uri_string(svg: String) -> (uri: String)
    ensures
        uri@ == svg_data_uri(svg@),
{
    let mut uri = SVG_DATA_URI_PREFIX.to_owned();
    base64_encode_into(svg.as_str().as_bytes(), &mut uri);
    uri
}

/// Build a `data:image/svg+xml;base64,...` URI for Stream Deck `setImage`.
pub fn key_image_data_uri(levels: &BatteryLevels, show_percentage: bool) -> (uri: String)
    ensures
        uri@ == svg_data_uri(levels_svg(*levels, show_percentage)),
{
    svg_data_uri_string(render_levels_svg(levels, show_percentage))
}

/// Data URI of the image shown while the first reading is pending.
pub fn loading_image_data_uri() -> (uri: String)
    ensures
        uri@ == svg_data_uri(loading_svg()),
{
    let mut svg = PLAIN_KEY_OPEN.to_owned();
    svg.append(logo_string(3600, 3000, 28).as_str());
    svg.append(LOADING_CAPTION);
    svg_data_uri_string(svg)
}

/// Data URI of the image shown when the keyboard cannot be read.
pub fn error_image_data_uri() -> (uri: String)
    ensures
        uri@ == svg_data_uri(error_svg()),
{
    let mut svg = PLAIN_KEY_OPEN.to_owned();
    svg.append(logo_string(3600, 2600, 22).as_str());
    svg.append(ERROR_CAPTION);
    svg_data_uri_string(svg)
}

// ---------------------------------------------------------------------------
// Laws
// ---------------------------------------------------------------------------

/// A higher charge never shows fewer blocks.
pub proof fn lemma_blocks_monotone(a: u8, b: u8)
    requires
        a <= b,
    ensures
        blocks_spec(a) <= blocks_spec(b),
{
}

/// A bar shows at most five blocks, and none exactly when the charge is 0.
pub proof fn lemma_blocks_bounds(pct: u8)
    ensures
        blocks_spec(pct) <= BLOCKS,
        blocks_spec(pct) == 0 <==> pct == 0,
{
}

/// Readings above 100 % show as a full bar, like 100 % itself.
pub proof fn lemma_blocks_saturate(pct: u8)
    requires
        pct >= 100,
    ensures
        blocks_spec(pct) == blocks_spec(100),
        blocks_spec(pct) == BLOCKS,
{
}

/// While a side charges, its level does not show: two readings that agree
/// on both statuses, and on each side's level unless that side is charging,
/// give the same key art.
pub proof fn lemma_charging_side_hides_level(a: BatteryLevels, b: BatteryLevels, show_percentage: bool)
    requires
        a.left_status == b.left_status,
        a.right_status == b.right_status,
        a.left == b.left || charging_spec(a.left_status),
        a.right == b.right || charging_spec(a.right_status),
    ensures
        levels_svg(a, show_percentage) == levels_svg(b, show_percentage),
{
    assert(side_blocks(a.left, a.left_status) == side_blocks(b.left, b.left_status));
    assert(side_blocks(a.right, a.right_status) == side_blocks(b.right, b.right_status));
    assert(percent_labels(a, show_percentage) == percent_labels(b, show_percentage));
}

/// Without numbers, the key art shows only the tiers: readings with the
/// same statuses and the same block count on each side look alike.
pub proof fn lemma_bars_only_shows_tiers(a: BatteryLevels, b: BatteryLevels)
    requires
        a.left_status == b.left_status,
        a.right_status == b.right_status,
        blocks_spec(a.left) == blocks_spec(b.left),
        blocks_spec(a.right) == blocks_spec(b.right),
    ensures
        levels_svg(a, false) == levels_svg(b, false),
{
    assert(side_blocks(a.left, a.left_status) == side_blocks(b.left, b.left_status));
    assert(side_blocks(a.right, a.right_status) == side_blocks(b.right, b.right_status));
}

/// Charge colors go by tier: red at 20 % or less, orange to 40 %, yellow
/// to 60 %, lime to 80 %, green above; an empty side keeps the outline
/// shade.
pub proof fn lemma_color_tiers(pct: u8)
    ensures
        pct == 0 ==> block_color(blocks_spec(pct)) == "#3f3f46"@,
        0 < pct <= 20 ==> block_color(blocks_spec(pct)) == "#ef4444"@,
        20 < pct <= 40 ==> block_color(blocks_spec(pct)) == "#f97316"@,
        40 < pct <= 60 ==> block_color(blocks_spec(pct)) == "#eab308"@,
        60 < pct <= 80 ==> block_color(blocks_spec(pct)) == "#a3e635"@,
        80 < pct ==> block_color(blocks_spec(pct)) == "#22c55e"@,
{
}

/// Bars taper and align in any column: in a column at least 0.07 units wide
/// each block is wider than the one below it, and the top block spans the
/// column; left-aligned blocks start at the column's left edge and
/// right-aligned ones end at its right edge; filled blocks take the tier
/// color and the rest the empty shade; a bolt follows the blocks exactly
/// when the side is charging.
pub proof fn lemma_bar_shape(
    col_x: int,
    top: int,
    col_w: int,
    block_h: int,
    gap: int,
    filled: u8,
    align: Align,
    charging: bool,
    i: int,
    j: int,
)
    requires
        0 <= i < j < 5,
    ensures
        col_w >= 7 ==> block_width(col_w, i) < block_width(col_w, j),
        block_width(col_w, 4) == col_w,
        block_x(col_x, col_w, i, Align::Left) == col_x,
        block_x(col_x, col_w, i, Align::Right) + block_width(col_w, i) == col_x + col_w,
        block_fill(filled, i) == (if i < filled {
            block_color(filled)
        } else {
            "#2a2a30"@
        }),
        bar_text(col_x, top, col_w, block_h, gap, filled, align, charging) == bar_rects(
            col_x,
            top,
            col_w,
            block_h,
            gap,
            filled,
            align,
            5,
        ) + if charging {
            bolt_text(10 * col_x + 5 * col_w, 10 * top - 6500, "#fde047"@)
        } else {
            seq![]
        },
{
    let a = col_w * (168 + 58 * i);
    let b = col_w * (168 + 58 * j);
    lemma_round_div_close(a, 400);
    lemma_round_div_close(b, 400);
    if col_w >= 7 {
        assert(b - a >= 406) by (nonlinear_arith)
            requires
                col_w >= 7,
                i < j,
                a == col_w * (168 + 58 * i),
                b == col_w * (168 + 58 * j),
        ;
        assert(800 * block_width(col_w, i) < 800 * block_width(col_w, j));
    }
    let top_w = col_w * (168 + 58 * 4);
    assert(top_w == 400 * col_w) by (nonlinear_arith)
        requires
            top_w == col_w * (168 + 58 * 4),
    ;
    lemma_round_div_close(top_w, 400);
    assert(800 * block_width(col_w, 4) <= 800 * col_w + 400);
    assert(800 * block_width(col_w, 4) >= 800 * col_w - 400);
}

proof fn lemma_dec_digits(n: nat)
    ensures
        forall|k: int| 0 <= k < dec(n).len() ==> #[trigger] dec(n)[k] != '%',
    decreases n,
{
    if n >= 10 {
        lemma_dec_digits(n / 10);
        assert forall|k: int| 0 <= k < dec(n).len() implies #[trigger] dec(n)[k] != '%' by {
            if k < dec(n / 10).len() {
                assert(dec(n)[k] == dec(n / 10)[k]);
            }
        }
    }
}

proof fn lemma_frac_digits(r: nat, p: nat)
    ensures
        forall|k: int| 0 <= k < frac_digits(r, p).len() ==> #[trigger] frac_digits(r, p)[k] != '%',
    decreases p,
{
    if p > 0 {
        lemma_frac_digits(r / 10, (p - 1) as nat);
        assert forall|k: int| 0 <= k < frac_digits(r, p).len() implies #[trigger] frac_digits(r, p)[k]
            != '%' by {
            if k < frac_digits(r / 10, (p - 1) as nat).len() {
                assert(frac_digits(r, p)[k] == frac_digits(r / 10, (p - 1) as nat)[k]);
            }
        }
    }
}

proof fn lemma_no_percent_concat(a: Seq<char>, b: Seq<char>)
    requires
        forall|k: int| 0 <= k < a.len() ==> #[trigger] a[k] != '%',
        forall|k: int| 0 <= k < b.len() ==> #[trigger] b[k] != '%',
    ensures
        forall|k: int| 0 <= k < (a + b).len() ==> #[trigger] (a + b)[k] != '%',
{
    assert forall|k: int| 0 <= k < (a + b).len() implies #[trigger] (a + b)[k] != '%' by {
        if k < a.len() {
            assert((a + b)[k] == a[k]);
        } else {
            assert((a + b)[k] == b[k - a.len()]);
        }
    }
}

proof fn lemma_fixed_no_percent(v: nat, p: nat)
    ensures
        forall|k: int| 0 <= k < fixed(v, p).len() ==> #[trigger] fixed(v, p)[k] != '%',
{
    lemma_dec_digits(v / pow10(p));
    lemma_frac_digits(v % pow10(p), p);
    lemma_no_percent_concat(dec(v / pow10(p)), seq!['.']);
    lemma_no_percent_concat(dec(v / pow10(p)) + seq!['.'], frac_digits(v % pow10(p), p));
}

proof fn lemma_number_text_no_percent(x: nat, n: nat)
    ensures
        forall|k: int| 0 <= k < number_text(x, n).len() ==> #[trigger] number_text(x, n)[k] != '%',
{
    let a = "<text x=\""@;
    let b = "\" y=\""@;
    let c = "\" text-anchor=\"middle\" fill=\"#e4e4e7\" font-family=\"Segoe UI,system-ui,sans-serif\" font-size=\"9\" font-weight=\"600\">"@;
    let d = "</text>"@;
    reveal_strlit("<text x=\"");
    reveal_strlit("\" y=\"");
    reveal_strlit("\" text-anchor=\"middle\" fill=\"#e4e4e7\" font-family=\"Segoe UI,system-ui,sans-serif\" font-size=\"9\" font-weight=\"600\">");
    reveal_strlit("</text>");
    lemma_fixed_no_percent(x, 1);
    lemma_fixed_no_percent(670, 1);
    lemma_dec_digits(n);
    lemma_no_percent_concat(a, fixed(x, 1));
    lemma_no_percent_concat(a + fixed(x, 1), b);
    lemma_no_percent_concat(a + fixed(x, 1) + b, fixed(670, 1));
    lemma_no_percent_concat(a + fixed(x, 1) + b + fixed(670, 1), c);
    lemma_no_percent_concat(a + fixed(x, 1) + b + fixed(670, 1) + c, dec(n));
    lemma_no_percent_concat(a + fixed(x, 1) + b + fixed(670, 1) + c + dec(n), d);
}

/// The optional numbers are bare: no label under the bars holds a `%`
/// sign (it would collide with the centre logo).
pub proof fn lemma_labels_have_no_percent_sign(levels: BatteryLevels, show_percentage: bool)
    ensures
        forall|k: int|
            0 <= k < percent_labels(levels, show_percentage).len() ==> #[trigger] percent_labels(
                levels,
                show_percentage,
            )[k] != '%',
{
    let l = if !charging_spec(levels.left_status) {
        number_text(185, capped_percent(levels.left) as nat)
    } else {
        seq![]
    };
    let r = if !charging_spec(levels.right_status) {
        number_text(535, capped_percent(levels.right) as nat)
    } else {
        seq![]
    };
    lemma_number_text_no_percent(185, capped_percent(levels.left) as nat);
    lemma_number_text_no_percent(535, capped_percent(levels.right) as nat);
    lemma_no_percent_concat(l, r);
}

} // verus!
