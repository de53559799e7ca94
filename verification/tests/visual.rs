use dygma_sd_plugin::battery::BatteryLevels;
use dygma_sd_plugin::visual::{
    blocks_for_percent, color_for_blocks, draw_bar, draw_bolt, error_image_data_uri,
    is_charging, key_image_data_uri, loading_image_data_uri, render_levels_svg,
    render_levels_svg_body, Align,
};

#[test]
fn block_thresholds() {
    assert_eq!(blocks_for_percent(0), 0);
    assert_eq!(blocks_for_percent(1), 1);
    assert_eq!(blocks_for_percent(20), 1);
    assert_eq!(blocks_for_percent(21), 2);
    assert_eq!(blocks_for_percent(40), 2);
    assert_eq!(blocks_for_percent(41), 3);
    assert_eq!(blocks_for_percent(60), 3);
    assert_eq!(blocks_for_percent(61), 4);
    assert_eq!(blocks_for_percent(80), 4);
    assert_eq!(blocks_for_percent(81), 5);
    assert_eq!(blocks_for_percent(100), 5);
}

#[test]
fn blocks_saturate_above_hundred() {
    assert_eq!(blocks_for_percent(101), 5);
    assert_eq!(blocks_for_percent(255), 5);
}

#[test]
fn colors_follow_tier() {
    assert_eq!(color_for_blocks(5), "#22c55e");
    assert_eq!(color_for_blocks(4), "#a3e635");
    assert_eq!(color_for_blocks(3), "#eab308");
    assert_eq!(color_for_blocks(2), "#f97316");
    assert_eq!(color_for_blocks(1), "#ef4444");
}

#[test]
fn empty_and_unknown_tiers_use_outline_shade() {
    assert_eq!(color_for_blocks(0), "#3f3f46");
    assert_eq!(color_for_blocks(6), "#3f3f46");
}

#[test]
fn charging_status() {
    assert!(!is_charging(None));
    assert!(!is_charging(Some(0)));
    assert!(is_charging(Some(1)));
    assert!(is_charging(Some(2)));
    assert!(!is_charging(Some(3)));
}

#[test]
fn svg_contains_bars_and_optional_percent() {
    let levels = BatteryLevels {
        left: 100,
        right: 40,
        left_status: Some(0),
        right_status: Some(0),
    };
    let with_pct = render_levels_svg(&levels, true);
    assert!(with_pct.contains(">100</text>"));
    assert!(with_pct.contains(">40</text>"));
    assert!(!with_pct.contains("100%"));
    assert!(!with_pct.contains("40%"));
    assert!(with_pct.contains("#22c55e"));
    assert!(with_pct.contains("#f97316"));
    assert!(with_pct.contains("aria-label=\"Dygma\""));
    assert!(with_pct.contains("#F43F27"));

    let no_pct = render_levels_svg(&levels, false);
    assert!(!no_pct.contains(">100</text>"));
    assert!(!no_pct.contains("100%"));
    assert!(no_pct.contains("aria-label=\"Dygma\""));
}

#[test]
fn charging_hides_fill_and_number_keeps_bolt() {
    let levels = BatteryLevels {
        left: 100,
        right: 40,
        left_status: Some(1),
        right_status: Some(2),
    };
    let svg = render_levels_svg(&levels, true);
    assert!(!svg.contains(">100</text>"));
    assert!(!svg.contains(">40</text>"));
    assert!(!svg.contains("#22c55e"));
    assert!(!svg.contains("#f97316"));
    assert!(svg.contains("#2a2a30"));
    assert!(svg.contains("#fde047"));
    assert!(svg.contains("aria-label=\"Dygma\""));

    let mixed = BatteryLevels {
        left: 55,
        right: 80,
        left_status: Some(0),
        right_status: Some(1),
    };
    let mixed_svg = render_levels_svg(&mixed, true);
    assert!(mixed_svg.contains(">55</text>"));
    assert!(!mixed_svg.contains(">80</text>"));
    assert!(mixed_svg.contains("#eab308"));
    assert!(mixed_svg.contains("#fde047"));
}

#[test]
fn data_uri_prefix() {
    let levels = BatteryLevels {
        left: 50,
        right: 50,
        left_status: None,
        right_status: None,
    };
    let uri = key_image_data_uri(&levels, true);
    assert!(uri.starts_with("data:image/svg+xml;base64,"));
}

#[test]
fn data_uri_encodes_the_svg() {
    let levels = BatteryLevels {
        left: 50,
        right: 50,
        left_status: None,
        right_status: None,
    };
    let uri = key_image_data_uri(&levels, true);
    let svg = render_levels_svg(&levels, true);
    // "<svg" in standard base64 is "PHN2Zy"; the whole encoding is 4/3 of the bytes.
    let payload = &uri["data:image/svg+xml;base64,".len()..];
    assert!(payload.starts_with("PHN2Zy"));
    assert_eq!(payload.len(), (svg.len() + 2) / 3 * 4);
    assert!(loading_image_data_uri().starts_with("data:image/svg+xml;base64,PHN2Zy"));
    assert!(error_image_data_uri().starts_with("data:image/svg+xml;base64,PHN2Zy"));
    assert_ne!(loading_image_data_uri(), error_image_data_uri());
}

#[test]
fn svg_wraps_body() {
    let levels = BatteryLevels {
        left: 72,
        right: 55,
        left_status: Some(0),
        right_status: Some(0),
    };
    let body = render_levels_svg_body(&levels, true);
    let svg = render_levels_svg(&levels, true);
    assert_eq!(
        svg,
        format!(
            "<svg xmlns=\"http://www.w3.org/2000/svg\" viewBox=\"0 0 72 72\" shape-rendering=\"geometricPrecision\">{body}</svg>"
        )
    );
    assert!(body.starts_with("<rect width=\"72\" height=\"72\" rx=\"8\" fill=\"#141418\"/>"));
}

#[test]
fn levels_above_hundred_print_as_hundred() {
    let levels = BatteryLevels {
        left: 180,
        right: 0,
        left_status: Some(0),
        right_status: Some(0),
    };
    let svg = render_levels_svg(&levels, true);
    assert!(svg.contains(">100</text>"));
    assert!(svg.contains(">0</text>"));
    assert!(!svg.contains(">180</text>"));
}

#[test]
fn charging_side_level_does_not_change_the_art() {
    let a = BatteryLevels {
        left: 12,
        right: 64,
        left_status: Some(2),
        right_status: Some(0),
    };
    let b = BatteryLevels { left: 97, ..a.clone() };
    assert_eq!(render_levels_svg(&a, true), render_levels_svg(&b, true));
    assert_eq!(render_levels_svg(&a, false), render_levels_svg(&b, false));
}

#[test]
fn bars_only_shows_tiers() {
    let a = BatteryLevels {
        left: 61,
        right: 21,
        left_status: Some(0),
        right_status: None,
    };
    let b = BatteryLevels {
        left: 80,
        right: 40,
        ..a.clone()
    };
    assert_eq!(render_levels_svg(&a, false), render_levels_svg(&b, false));
    assert_ne!(render_levels_svg(&a, true), render_levels_svg(&b, true));
}

const BOLT_AT_ORIGIN: &str = "<path fill=\"#fde047\" stroke=\"#1a1a1e\" stroke-width=\"0.4\" d=\"M1.44 -5.04 L-2.52 0.36 L-0.36 0.36 L-1.80 5.04 L2.52 -0.14 L0.58 -0.14 Z\"/>";

#[test]
fn bolt_at_origin() {
    let mut out = String::new();
    draw_bolt(&mut out, 0, 0, "#fde047");
    assert_eq!(out, BOLT_AT_ORIGIN);
}

#[test]
fn bolt_is_appended() {
    let mut out = String::from("<g>");
    draw_bolt(&mut out, 0, 0, "#fde047");
    assert_eq!(out, format!("<g>{BOLT_AT_ORIGIN}"));
}

fn rect(x: &str, y: &str, w: &str, fill: &str) -> String {
    format!(
        "<rect x=\"{x}\" y=\"{y}\" width=\"{w}\" height=\"3.00\" rx=\"2\" fill=\"{fill}\" stroke=\"#3f3f46\" stroke-width=\"0.6\"/>"
    )
}

#[test]
fn bar_in_a_column_left_of_the_origin() {
    // Column from x = -10 to x = 10, top at 5, blocks 3 high and 1 apart.
    let mut out = String::from("<svg>");
    draw_bar(&mut out, -1000, 500, 2000, 300, 100, 2, Align::Right, true);
    let expected = [
        "<svg>".to_string(),
        rect("1.60", "21.00", "8.40", "#f97316"),
        rect("-1.30", "17.00", "11.30", "#f97316"),
        rect("-4.20", "13.00", "14.20", "#2a2a30"),
        rect("-7.10", "9.00", "17.10", "#2a2a30"),
        rect("-10.00", "5.00", "20.00", "#2a2a30"),
        "<path fill=\"#fde047\" stroke=\"#1a1a1e\" stroke-width=\"0.4\" d=\"M1.44 -6.54 L-2.52 -1.14 L-0.36 -1.14 L-1.80 3.54 L2.52 -1.64 L0.58 -1.64 Z\"/>".to_string(),
    ]
    .concat();
    assert_eq!(out, expected);
}

#[test]
fn left_aligned_bar_without_charge_has_no_bolt() {
    let mut out = String::new();
    draw_bar(&mut out, -1000, 500, 2000, 300, 100, 5, Align::Left, false);
    let expected = [
        rect("-10.00", "21.00", "8.40", "#22c55e"),
        rect("-10.00", "17.00", "11.30", "#22c55e"),
        rect("-10.00", "13.00", "14.20", "#22c55e"),
        rect("-10.00", "9.00", "17.10", "#22c55e"),
        rect("-10.00", "5.00", "20.00", "#22c55e"),
    ]
    .concat();
    assert_eq!(out, expected);
    assert!(!out.contains("#fde047"));
}
