use dygma_sd_plugin::marketplace::{
    app_icon_svg, banner_shell, esc, gallery01_body, gallery02_body, gallery03_body, levels,
    nested_key, png_data_uri, thumbnail_body, wrap_text, BANNER_H, BANNER_W, FONT_STACK,
};
use dygma_sd_plugin::text::is_white_space;
use dygma_sd_plugin::visual::render_levels_svg_body;

/// Greedy wrap computed with `str::split_whitespace` and byte lengths.
fn std_wrap(s: &str, max: usize) -> Vec<String> {
    let mut lines = Vec::new();
    let mut cur = String::new();
    for word in s.split_whitespace() {
        if cur.is_empty() {
            cur = word.to_string();
        } else if cur.len() + 1 + word.len() <= max {
            cur = format!("{cur} {word}");
        } else {
            lines.push(std::mem::take(&mut cur));
            cur = word.to_string();
        }
    }
    if !cur.is_empty() {
        lines.push(cur);
    }
    if lines.is_empty() {
        lines.push(String::new());
    }
    lines
}

/// Key tile with float positions printed by `Display`.
fn float_key(x: f32, y: f32, scale: f32, l: u8, r: u8, lc: bool, rc: bool, show: bool) -> String {
    let px = 72.0 * scale;
    let body = render_levels_svg_body(&levels(l, r, lc, rc), show);
    format!("<svg x=\"{x}\" y=\"{y}\" width=\"{px}\" height=\"{px}\" viewBox=\"0 0 72 72\" shape-rendering=\"geometricPrecision\">{body}</svg>")
}

#[test]
fn esc_escapes_markup_characters() {
    assert_eq!(esc("a & b < c > d \"e\""), "a &amp; b &lt; c &gt; d &quot;e&quot;");
    assert_eq!(esc("plain"), "plain");
    assert_eq!(esc(""), "");
    assert_eq!(esc("&amp;"), "&amp;amp;");
    assert_eq!(esc("Ω → ✓"), "Ω → ✓");
}

#[test]
fn white_space_matches_char_is_whitespace() {
    for code in 0u32..=0x10FFFF {
        if let Some(c) = char::from_u32(code) {
            assert_eq!(is_white_space(c), c.is_whitespace(), "U+{code:04X}");
        }
    }
}

#[test]
fn wrap_text_greedy_fill() {
    assert_eq!(
        wrap_text("Focus Serial (Not Pure Bluetooth Mode)", 34),
        vec!["Focus Serial (Not Pure Bluetooth", "Mode)"]
    );
    assert_eq!(wrap_text("", 10), vec![String::new()]);
    assert_eq!(wrap_text("   \t\n ", 10), vec![String::new()]);
    assert_eq!(wrap_text("supercalifragilistic a b", 5), vec!["supercalifragilistic", "a b"]);
    assert_eq!(wrap_text("one two", 7), vec!["one two"]);
    assert_eq!(wrap_text("one two", 6), vec!["one", "two"]);
}

#[test]
fn wrap_text_matches_std_split() {
    let samples = [
        "Wireless Battery Fuel-Gauge over RF to Neuron",
        "One Process Owns the Serial Port at a Time",
        "Auto-Poll; Press Key to Force Refresh",
        "  leading and   trailing   ",
        "naïve café résumé über straße",
        "a\u{2003}b\u{3000}c\u{85}d",
    ];
    for s in samples {
        for max in [0usize, 1, 5, 10, 34, 100] {
            assert_eq!(wrap_text(s, max), std_wrap(s, max), "{s:?} {max}");
        }
    }
}

#[test]
fn nested_key_matches_float_layout() {
    assert_eq!(
        nested_key(280, 360, 42, 100, 40, true, true, true),
        float_key(280.0, 360.0, 4.2, 100, 40, true, true, true)
    );
    assert_eq!(
        nested_key(1000, 320, 65, 55, 75, false, true, true),
        float_key(1000.0, 320.0, 6.5, 55, 75, false, true, true)
    );
}

#[test]
fn banner_shell_layout() {
    let s = banner_shell("A & B", "<sub>", "data:x", "<g/>");
    let expected = format!(
        r##"<svg xmlns="http://www.w3.org/2000/svg" width="{BANNER_W}" height="{BANNER_H}" viewBox="0 0 {BANNER_W} {BANNER_H}">
  <defs>
    <linearGradient id="bg" x1="0" y1="0" x2="{BANNER_W}" y2="{BANNER_H}" gradientUnits="userSpaceOnUse">
      <stop offset="0%" stop-color="#0c0c10"/>
      <stop offset="100%" stop-color="#1c1424"/>
    </linearGradient>
  </defs>
  <rect width="{BANNER_W}" height="{BANNER_H}" fill="url(#bg)"/>
  <rect width="12" height="{BANNER_H}" fill="#f43f27"/>
  <image href="data:x" x="80" y="80" width="160" height="160"/>
  <text x="280" y="155" fill="#ffffff" font-family="{FONT_STACK}" font-size="54" font-weight="700">A &amp; B</text>
  <text x="280" y="215" fill="#a1a1aa" font-family="{FONT_STACK}" font-size="22">&lt;sub&gt;</text>
  <g/>
</svg>"##
    );
    assert_eq!(s, expected);
}

#[test]
fn app_icon_layout() {
    assert_eq!(
        app_icon_svg("data:logo"),
        "<svg xmlns=\"http://www.w3.org/2000/svg\" width=\"288\" height=\"288\" viewBox=\"0 0 288 288\">\n  <rect width=\"288\" height=\"288\" fill=\"#121216\"/>\n  <image href=\"data:logo\" x=\"44\" y=\"36\" width=\"200\" height=\"200\"/>\n</svg>"
    );
}

#[test]
fn thumbnail_matches_float_layout() {
    let mut expected = String::new();
    expected.push_str(&float_key(280.0, 360.0, 4.2, 100, 40, true, true, true));
    expected.push_str(&float_key(620.0, 360.0, 4.2, 72, 55, false, false, true));
    expected.push_str(&float_key(960.0, 360.0, 4.2, 18, 8, false, false, true));
    expected.push_str(&float_key(1300.0, 360.0, 4.2, 90, 90, false, false, false));
    let key_w = 72.0 * 4.2;
    for (x, label) in [(280.0, "Charging"), (620.0, "Mid Charge"), (960.0, "Low"), (1300.0, "Bars Only")] {
        expected.push_str(&format!(
            "<text x=\"{}\" y=\"740\" text-anchor=\"middle\" fill=\"#71717a\" font-family=\"{FONT_STACK}\" font-size=\"16\">{label}</text>",
            x + key_w / 2.0
        ));
    }
    expected.push_str(&format!("<text x=\"80\" y=\"900\" fill=\"#f43f27\" font-family=\"{FONT_STACK}\" font-size=\"14\" font-weight=\"700\">By Eminence  |  Unofficial Community Plugin  |  Logo Used with Permission</text>"));
    assert_eq!(thumbnail_body(), expected);
}

#[test]
fn gallery01_matches_float_layout() {
    let expected = float_key(420.0, 320.0, 6.5, 100, 40, true, true, true)
        + &float_key(1000.0, 320.0, 6.5, 55, 75, false, true, true);
    assert_eq!(gallery01_body(), expected);
}

#[test]
fn gallery02_matches_float_layout() {
    let items = [
        ("1. Neuron on USB", "Focus Serial (Not Pure Bluetooth Mode)"),
        ("2. Halves on RF", "Wireless Battery Fuel-Gauge over RF to Neuron"),
        ("3. Close Bazecor", "One Process Owns the Serial Port at a Time"),
        ("4. Drop on a Key", "Auto-Poll; Press Key to Force Refresh"),
    ];
    let mut expected = String::new();
    let mut x = 120.0_f32;
    let y = 340.0_f32;
    for (t, d) in items {
        let mut text_lines = String::new();
        for (i, line) in std_wrap(d, 34).iter().enumerate() {
            let dy = if i == 0 { 0 } else { 22 };
            text_lines.push_str(&format!("<tspan x=\"{}\" dy=\"{dy}\">{}</tspan>", x + 24.0, esc(line)));
        }
        expected.push_str(&format!(
            "<rect x=\"{x}\" y=\"{y}\" width=\"400\" height=\"200\" rx=\"16\" fill=\"#1c1c24\"/>\n<text x=\"{}\" y=\"{}\" fill=\"#ffffff\" font-family=\"{FONT_STACK}\" font-size=\"20\" font-weight=\"700\">{}</text>\n<text x=\"{}\" y=\"{}\" fill=\"#b4b4be\" font-family=\"{FONT_STACK}\" font-size=\"16\">{text_lines}</text>\n",
            x + 24.0, y + 60.0, esc(t), x + 24.0, y + 110.0
        ));
        x += 440.0;
    }
    assert_eq!(gallery02_body(), expected);
}

#[test]
fn gallery03_matches_float_layout() {
    let boards = [
        ("Defy", "Columnar Wireless", "Verified", "data:d"),
        ("Raise 2", "Row-Staggered Wireless", "Beta", "data:r"),
        ("Sonsei", "Low-Profile Wireless", "Beta", "data:s"),
    ];
    let (card_w, card_h, gap) = (520.0_f32, 480.0_f32, 40.0_f32);
    let mut x = (BANNER_W as f32 - (3.0 * card_w + 2.0 * gap)) / 2.0;
    let y = 300.0_f32;
    let (pad, photo_h) = (20.0_f32, 250.0_f32);
    let mut expected = String::new();
    for (name, desc, status, img) in boards {
        let (px, py, pw) = (x + pad, y + pad, card_w - 2.0 * pad);
        let text_y = py + photo_h + 18.0;
        let text_x = x + 28.0;
        expected.push_str(&format!(
            "<rect x=\"{x}\" y=\"{y}\" width=\"{card_w}\" height=\"{card_h}\" rx=\"20\" fill=\"#1c1c24\"/>\n<svg x=\"{px}\" y=\"{py}\" width=\"{pw}\" height=\"{photo_h}\">\n  <rect width=\"{pw}\" height=\"{photo_h}\" rx=\"14\" fill=\"#121218\"/>\n  <image href=\"{img}\" x=\"0\" y=\"0\" width=\"{pw}\" height=\"{photo_h}\" preserveAspectRatio=\"xMidYMid meet\"/>\n</svg>\n<text x=\"{text_x}\" y=\"{}\" fill=\"#ffffff\" font-family=\"{FONT_STACK}\" font-size=\"26\" font-weight=\"700\">{name}</text>\n<text x=\"{text_x}\" y=\"{}\" fill=\"#a1a1aa\" font-family=\"{FONT_STACK}\" font-size=\"15\">{desc}</text>\n<text x=\"{text_x}\" y=\"{}\" fill=\"#f43f27\" font-family=\"{FONT_STACK}\" font-size=\"14\" font-weight=\"700\">{status}</text>\n<text x=\"{text_x}\" y=\"{}\" fill=\"#a1a1aa\" font-family=\"{FONT_STACK}\" font-size=\"13\">Windows Primary  |  macOS Beta</text>\n",
            text_y + 28.0, text_y + 58.0, text_y + 96.0, text_y + 124.0
        ));
        x += card_w + gap;
    }
    assert_eq!(gallery03_body("data:d", "data:r", "data:s"), expected);
}

#[test]
fn png_data_uri_encodes_bytes() {
    assert_eq!(png_data_uri(b""), "data:image/png;base64,");
    assert_eq!(png_data_uri(b"Man"), "data:image/png;base64,TWFu");
    assert_eq!(png_data_uri(&[0x89, b'P', b'N', b'G']), "data:image/png;base64,iVBORw==");
}

fn unesc(t: &str) -> String {
    t.replace("&quot;", "\"").replace("&gt;", ">").replace("&lt;", "<").replace("&amp;", "&")
}

#[test]
fn esc_round_trips() {
    assert_eq!(esc("a<b>&\"c"), "a&lt;b&gt;&amp;&quot;c");
    assert_eq!(esc("&lt;"), "&amp;lt;");
    for s in ["a<b>&\"c", "&lt;", "&&&", "<<>>", "Ω & ✓", "", "plain text"] {
        assert_eq!(unesc(&esc(s)), s);
    }
    assert_eq!(esc("no markup here"), "no markup here");
}

#[test]
fn base64_follows_the_standard_alphabet_and_padding() {
    let cases: [(&[u8], &str); 7] = [
        (b"", ""),
        (b"f", "Zg=="),
        (b"fo", "Zm8="),
        (b"foo", "Zm9v"),
        (b"foob", "Zm9vYg=="),
        (b"foobar", "Zm9vYmFy"),
        (&[0xfb, 0xff], "+/8="),
    ];
    for (bytes, encoded) in cases {
        assert_eq!(png_data_uri(bytes), format!("data:image/png;base64,{encoded}"));
    }
}
