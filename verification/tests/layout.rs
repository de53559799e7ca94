//! Compares the fixed-point key art against the same layout computed in
//! `f32` and printed with Rust's float formatting.

use dygma_sd_plugin::battery::BatteryLevels;
use dygma_sd_plugin::visual::{color_for_blocks, is_charging, blocks_for_percent, render_levels_svg_body};

const LOGO_MARKER: &str = "aria-label=\"Dygma\">";

/// Key art body laid out in floating point, with the logo paths left out.
fn float_body(levels: &BatteryLevels, show: bool) -> String {
    let view = 72.0_f32;
    let lc = is_charging(levels.left_status);
    let rc = is_charging(levels.right_status);
    let lb = if lc { 0 } else { blocks_for_percent(levels.left) };
    let rb = if rc { 0 } else { blocks_for_percent(levels.right) };
    let top = if lc || rc { 14.0_f32 } else { 8.0 };
    let bottom = if show { 18.0_f32 } else { 10.0 };
    let col_w = (view - 6.0 * 2.0 - 10.0) / 2.0;
    let block_h = (view - top - bottom - 2.0 * (5.0 - 1.0)) / 5.0;
    let mut out = String::from("<rect width=\"72\" height=\"72\" rx=\"8\" fill=\"#141418\"/>");
    for (col_x, filled, right, charging) in [(6.0_f32, lb, false, lc), (6.0 + col_w + 10.0, rb, true, rc)] {
        for i in 0..5u8 {
            let t = i as f32 / 4.0;
            let w = col_w * (0.42 + (1.0 - 0.42) * t);
            let x = if right { col_x + (col_w - w) } else { col_x };
            let y = top + (4 - i) as f32 * (block_h + 2.0);
            let color = if i < filled { color_for_blocks(filled) } else { "#2a2a30" };
            out.push_str(&format!(
                "<rect x=\"{x:.2}\" y=\"{y:.2}\" width=\"{w:.2}\" height=\"{block_h:.2}\" rx=\"2\" fill=\"{color}\" stroke=\"#3f3f46\" stroke-width=\"0.6\"/>"
            ));
        }
        if charging {
            let cx = col_x + col_w / 2.0;
            let cy = top - 6.5;
            out.push_str("<path fill=\"#fde047\" stroke=\"#1a1a1e\" stroke-width=\"0.4\" d=\"M");
            let pts = [(2.0_f32, -7.0_f32), (-3.5, 0.5), (-0.5, 0.5), (-2.5, 7.0), (3.5, -0.2), (0.8, -0.2)];
            for (k, (px, py)) in pts.iter().enumerate() {
                let (x, y) = (cx + px * 0.72, cy + py * 0.72);
                if k > 0 {
                    out.push_str(" L");
                }
                out.push_str(&format!("{x:.2} {y:.2}"));
            }
            out.push_str(" Z\"/>");
        }
    }
    let size = if show { 11.0_f32 } else { 12.0 };
    let cy = if show { view - 14.0 } else { view - 10.0 };
    let (tx, ty, s) = (view * 0.5 - size * 0.5, cy - size * 0.5, size / 56.0);
    out.push_str(&format!("<g transform=\"translate({tx:.2} {ty:.2}) scale({s:.5})\" {LOGO_MARKER}"));
    if show {
        for (x, n, charging) in [(6.0 + col_w / 2.0, levels.left, lc), (6.0 + col_w + 10.0 + col_w / 2.0, levels.right, rc)] {
            if !charging {
                out.push_str(&format!(
                    "<text x=\"{x:.1}\" y=\"{:.1}\" text-anchor=\"middle\" fill=\"#e4e4e7\" font-family=\"Segoe UI,system-ui,sans-serif\" font-size=\"9\" font-weight=\"600\">{}</text>",
                    view - 5.0,
                    n.min(100)
                ));
            }
        }
    }
    out
}

/// The body with the logo paths cut out (they are a fixed block of text).
fn without_logo_paths(body: &str) -> String {
    let start = body.find(LOGO_MARKER).unwrap() + LOGO_MARKER.len();
    let end = body.find("</g>").unwrap() + "</g>".len();
    format!("{}{}", &body[..start], &body[end..])
}

#[test]
fn fixed_point_layout_matches_float_layout() {
    for (left, right) in [(100u8, 40u8), (0, 0), (19, 81), (55, 80)] {
        for (ls, rs) in [(Some(0u8), Some(0u8)), (Some(1), None), (None, Some(2)), (Some(2), Some(1))] {
            for show in [true, false] {
                let levels = BatteryLevels { left, right, left_status: ls, right_status: rs };
                let body = render_levels_svg_body(&levels, show);
                assert_eq!(without_logo_paths(&body), float_body(&levels, show), "{levels:?} {show}");
            }
        }
    }
}
