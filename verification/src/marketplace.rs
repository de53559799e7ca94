//! SVG compositions for the Elgato Marketplace media: banner shell, app icon,
//! thumbnail and gallery bodies. Key tiles nest the plugin's own key art.
//!
//! Positions are whole pixels except the thumbnail keys, whose width is held
//! in tenths of a pixel.

use vstd::prelude::*;
use vstd::string::*;
use vstd::utf8::*;

use crate::battery::BatteryLevels;
use crate::text::{dec, dec_string, fixed, fixed_string, is_white_space, push_char, white_space};
use crate::visual::{base64_encode_into, base64_standard, levels_svg_body, render_levels_svg_body};

verus! {

/// Banner width in pixels.
pub const BANNER_W: u64 = 1920;

/// Banner height in pixels.
pub const BANNER_H: u64 = 960;

/// Font stack of all banner text.
pub const FONT_STACK: &'static str = "Segoe UI, Arial, Helvetica, sans-serif";

/// Prefix of a base64 PNG data URI.
pub const PNG_DATA_URI_PREFIX: &'static str = "data:image/png;base64,";

// ---------------------------------------------------------------------------
// Text escaping
// ---------------------------------------------------------------------------

/// The XML escape of one character: `&`, `<`, `>` and `"` become entities.
pub open spec fn escape_char(c: char) -> Seq<char> {
    if c == '&' {
        "&amp;"@
    } else if c == '<' {
        "&lt;"@
    } else if c == '>' {
        "&gt;"@
    } else if c == '"' {
        "&quot;"@
    } else {
        seq![c]
    }
}

/// The XML escape of a text, character by character.
pub open spec fn escape_text(s: Seq<char>) -> Seq<char>
    decreases s.len(),
{
    if s.len() == 0 {
        seq![]
    } else {
        escape_text(s.drop_last()) + escape_char(s.last())
    }
}

/// Escapes `&`, `<`, `>` and `"` for use in SVG text and attributes.
pub fn esc(s: &str) -> (escaped: String)
    ensures
        escaped@ == escape_text(s@),
{
    broadcast use vstd::string::group_string_axioms;

    let mut escaped = String::new();
    for c in it: s.chars()
        invariant
            it.seq() == s@,
            escaped@ == escape_text(s@.take(it.index() as int)),
    {
        let ghost before = escaped@;
        let ghost k = it.index() as int;
        if c == '&' {
            escaped.append("&amp;");
        } else if c == '<' {
            escaped.append("&lt;");
        } else if c == '>' {
            escaped.append("&gt;");
        } else if c == '"' {
            escaped.append("&quot;");
        } else {
            push_char(&mut escaped, c);
        }
        assert(s@.take(k + 1).drop_last() =~= s@.take(k));
    }
    assert(s@.take(s@.len() as int) =~= s@);
    escaped
}

// ---------------------------------------------------------------------------
// Word wrapping
// ---------------------------------------------------------------------------

/// Splitting at white space, one character at a time: the words completed
/// so far, and the word being read.
pub open spec fn split_words(s: Seq<char>) -> (Seq<Seq<char>>, Seq<char>)
    decreases s.len(),
{
    if s.len() == 0 {
        (seq![], seq![])
    } else {
        let (words, cur) = split_words(s.drop_last());
        let c = s.last();
        if white_space(c) {
            if cur.len() > 0 {
                (words.push(cur), seq![])
            } else {
                (words, seq![])
            }
        } else {
            (words, cur.push(c))
        }
    }
}

/// The words of a text: its maximal runs of non-white-space characters, in
/// order (as `str::split_whitespace`).
pub open spec fn words_of(s: Seq<char>) -> Seq<Seq<char>> {
    let (words, cur) = split_words(s);
    if cur.len() > 0 {
        words.push(cur)
    } else {
        words
    }
}

/// The length of a text in UTF-8 bytes, as `str::len` reports it.
pub open spec fn byte_len(s: Seq<char>) -> usize {
    encode_utf8(s).len() as usize
}

/// Greedy filling, one word at a time: the finished lines and the line being
/// filled. A word joins the current line (after a space) when the line stays
/// within `max` bytes; otherwise it starts a new line.
pub open spec fn wrap_step(state: (Seq<Seq<char>>, Seq<char>), word: Seq<char>, max: nat) -> (Seq<Seq<char>>, Seq<char>) {
    let (lines, cur) = state;
    if cur.len() == 0 {
        (lines, word)
    } else if byte_len(cur) + 1 + byte_len(word) <= max {
        (lines, cur + seq![' '] + word)
    } else {
        (lines.push(cur), word)
    }
}

/// Greedy filling of the first `n` words.
pub open spec fn wrap_fold(words: Seq<Seq<char>>, max: nat, n: nat) -> (Seq<Seq<char>>, Seq<char>)
    decreases n,
{
    if n == 0 {
        (seq![], seq![])
    } else {
        wrap_step(wrap_fold(words, max, (n - 1) as nat), words[n - 1], max)
    }
}

/// The lines of a text wrapped at `max` bytes: greedy filling of its words,
/// and a single empty line for a text without words.
pub open spec fn wrap_lines(s: Seq<char>, max: nat) -> Seq<Seq<char>> {
    let words = words_of(s);
    let (lines, cur) = wrap_fold(words, max, words.len());
    let all = if cur.len() > 0 {
        lines.push(cur)
    } else {
        lines
    };
    if all.len() == 0 {
        seq![seq![]]
    } else {
        all
    }
}

/// The views of a list of strings.
pub open spec fn string_views(v: Seq<String>) -> Seq<Seq<char>> {
    v.map_values(|s: String| s@)
}

fn split_whitespace(s: &str) -> (words: Vec<String>)
    ensures
        string_views(words@) == words_of(s@),
{
    broadcast use vstd::string::group_string_axioms;

    let mut words: Vec<String> = Vec::new();
    let mut cur = String::new();
    for c in it: s.chars()
        invariant
            it.seq() == s@,
            (string_views(words@), cur@) == split_words(s@.take(it.index() as int)),
    {
        let ghost k = it.index() as int;
        assert(s@.take(k + 1).drop_last() =~= s@.take(k));
        let ghost before = words@;
        if is_white_space(c) {
            if !cur.as_str().is_empty() {
                words.push(cur);
                assert(string_views(words@) =~= string_views(before).push(split_words(s@.take(k)).1));
            }
            cur = String::new();
        } else {
            push_char(&mut cur, c);
        }
    }
    assert(s@.take(s@.len() as int) =~= s@);
    if !cur.as_str().is_empty() {
        let ghost before = words@;
        words.push(cur);
        assert(string_views(words@) =~= string_views(before).push(split_words(s@).1));
    }
    words
}

/// Wraps the words of `s` into lines of at most `max_chars` bytes (a longer
/// word stands on a line of its own); a text without words gives one empty
/// line.
pub fn wrap_text(s: &str, max_chars: usize) -> (lines: Vec<String>)
    ensures
        string_views(lines@) == wrap_lines(s@, max_chars as nat),
{
    let words = split_whitespace(s);
    let ghost ws = words_of(s@);
    let mut lines: Vec<String> = Vec::new();
    let mut cur = String::new();
    let mut i: usize = 0;
    while i < words.len()
        invariant
            i <= words.len(),
            string_views(words@) == ws,
            (string_views(lines@), cur@) == wrap_fold(ws, max_chars as nat, i as nat),
        decreases words.len() - i,
    {
        let word = &words[i];
        assert(word@ == ws[i as int]);
        let cur_len = cur.as_str().len();
        let word_len = word.as_str().len();
        let ghost before = lines@;
        proof {
            reveal_strlit(" ");
        }
        assert(wrap_fold(ws, max_chars as nat, (i + 1) as nat) == wrap_step(
            wrap_fold(ws, max_chars as nat, i as nat),
            ws[i as int],
            max_chars as nat,
        ));
        if cur.as_str().is_empty() {
            cur = word.clone();
        } else if cur_len < max_chars && word_len <= max_chars - cur_len - 1 {
            cur.append(" ");
            cur.append(word.as_str());
        } else {
            lines.push(cur);
            assert(string_views(lines@) =~= string_views(before).push(wrap_fold(ws, max_chars as nat, i as nat).1));
            cur = word.clone();
        }
        i = i + 1;
    }
    if !cur.as_str().is_empty() {
        let ghost before = lines@;
        lines.push(cur);
        assert(string_views(lines@) =~= string_views(before).push(wrap_fold(ws, max_chars as nat, ws.len()).1));
    }
    if lines.is_empty() {
        lines.push(String::new());
        assert(string_views(lines@) =~= seq![Seq::<char>::empty()]);
    }
    lines
}

// ---------------------------------------------------------------------------
// Banner pieces
// ---------------------------------------------------------------------------

/// A length given in tenths, printed the way float display prints it: a
/// whole number without decimals, otherwise with one decimal.
pub open spec fn display_tenths(t: nat) -> Seq<char> {
    if t % 10 == 0 {
        dec(t / 10)
    } else {
        fixed(t, 1)
    }
}

fn display_tenths_string(t: u64) -> (s: String)
    ensures
        s@ == display_tenths(t as nat),
{
    if t % 10 == 0 {
        dec_string(t / 10)
    } else {
        fixed_string(t, 1)
    }
}

/// Sample levels for a preview tile: status 1 (charging) or 0 per side.
pub open spec fn preview_levels(left: u8, right: u8, left_chg: bool, right_chg: bool) -> BatteryLevels {
    BatteryLevels {
        left,
        right,
        left_status: Some(if left_chg { 1u8 } else { 0u8 }),
        right_status: Some(if right_chg { 1u8 } else { 0u8 }),
    }
}

/// Sample levels for a preview tile: a charging side reports status 1, the
/// other status 0.
pub fn levels(left: u8, right: u8, left_chg: bool, right_chg: bool) -> (l: BatteryLevels)
    ensures
        l == preview_levels(left, right, left_chg, right_chg),
{
    BatteryLevels {
        left,
        right,
        left_status: Some(if left_chg { 1 } else { 0 }),
        right_status: Some(if right_chg { 1 } else { 0 }),
    }
}

/// A 1920 by 960 banner: gradient background, red edge, logo, escaped
/// title and subtitle, and the given body.
pub open spec fn banner_text(title: Seq<char>, subtitle: Seq<char>, logo_uri: Seq<char>, body: Seq<char>) -> Seq<char> {
    "<svg xmlns=\"http://www.w3.org/2000/svg\" width=\""@
        + dec(BANNER_W as nat)
        + "\" height=\""@
        + dec(BANNER_H as nat)
        + "\" viewBox=\"0 0 "@
        + dec(BANNER_W as nat)
        + " "@
        + dec(BANNER_H as nat)
        + "\">\n  <defs>\n    <linearGradient id=\"bg\" x1=\"0\" y1=\"0\" x2=\""@
        + dec(BANNER_W as nat)
        + "\" y2=\""@
        + dec(BANNER_H as nat)
        + "\" gradientUnits=\"userSpaceOnUse\">\n      <stop offset=\"0%\" stop-color=\"#0c0c10\"/>\n      <stop offset=\"100%\" stop-color=\"#1c1424\"/>\n    </linearGradient>\n  </defs>\n  <rect width=\""@
        + dec(BANNER_W as nat)
        + "\" height=\""@
        + dec(BANNER_H as nat)
        + "\" fill=\"url(#bg)\"/>\n  <rect width=\"12\" height=\""@
        + dec(BANNER_H as nat)
        + "\" fill=\"#f43f27\"/>\n  <image href=\""@
        + logo_uri
        + "\" x=\"80\" y=\"80\" width=\"160\" height=\"160\"/>\n  <text x=\"280\" y=\"155\" fill=\"#ffffff\" font-family=\""@
        + FONT_STACK@
        + "\" font-size=\"54\" font-weight=\"700\">"@
        + escape_text(title)
        + "</text>\n  <text x=\"280\" y=\"215\" fill=\"#a1a1aa\" font-family=\""@
        + FONT_STACK@
        + "\" font-size=\"22\">"@
        + escape_text(subtitle)
        + "</text>\n  "@
        + body
        + "\n</svg>"@
}

/// Composes a banner around `body`, escaping the title and subtitle.
pub fn banner_shell(title: &str, subtitle: &str, logo_uri: &str, body: &str) -> (s: String)
    ensures
        s@ == banner_text(title@, subtitle@, logo_uri@, body@),
{
    let mut s = "<svg xmlns=\"http://www.w3.org/2000/svg\" width=\"".to_owned();
    s.append(dec_string(BANNER_W).as_str());
    s.append("\" height=\"");
    s.append(dec_string(BANNER_H).as_str());
    s.append("\" viewBox=\"0 0 ");
    s.append(dec_string(BANNER_W).as_str());
    s.append(" ");
    s.append(dec_string(BANNER_H).as_str());
    s.append("\">\n  <defs>\n    <linearGradient id=\"bg\" x1=\"0\" y1=\"0\" x2=\"");
    s.append(dec_string(BANNER_W).as_str());
    s.append("\" y2=\"");
    s.append(dec_string(BANNER_H).as_str());
    s.append("\" gradientUnits=\"userSpaceOnUse\">\n      <stop offset=\"0%\" stop-color=\"#0c0c10\"/>\n      <stop offset=\"100%\" stop-color=\"#1c1424\"/>\n    </linearGradient>\n  </defs>\n  <rect width=\"");
    s.append(dec_string(BANNER_W).as_str());
    s.append("\" height=\"");
    s.append(dec_string(BANNER_H).as_str());
    s.append("\" fill=\"url(#bg)\"/>\n  <rect width=\"12\" height=\"");
    s.append(dec_string(BANNER_H).as_str());
    s.append("\" fill=\"#f43f27\"/>\n  <image href=\"");
    s.append(logo_uri);
    s.append("\" x=\"80\" y=\"80\" width=\"160\" height=\"160\"/>\n  <text x=\"280\" y=\"155\" fill=\"#ffffff\" font-family=\"");
    s.append(FONT_STACK);
    s.append("\" font-size=\"54\" font-weight=\"700\">");
    s.append(esc(title).as_str());
    s.append("</text>\n  <text x=\"280\" y=\"215\" fill=\"#a1a1aa\" font-family=\"");
    s.append(FONT_STACK);
    s.append("\" font-size=\"22\">");
    s.append(esc(subtitle).as_str());
    s.append("</text>\n  ");
    s.append(body);
    s.append("\n</svg>");
    s
}

/// The 288 by 288 app icon: the logo on a dark square.
pub open spec fn app_icon_text(logo_uri: Seq<char>) -> Seq<char> {
    "<svg xmlns=\"http://www.w3.org/2000/svg\" width=\"288\" height=\"288\" viewBox=\"0 0 288 288\">\n  <rect width=\"288\" height=\"288\" fill=\"#121216\"/>\n  <image href=\""@
        + logo_uri
        + "\" x=\"44\" y=\"36\" width=\"200\" height=\"200\"/>\n</svg>"@
}

/// The app icon around a logo image URI.
pub fn app_icon_svg(logo_uri: &str) -> (s: String)
    ensures
        s@ == app_icon_text(logo_uri@),
{
    let mut s = "<svg xmlns=\"http://www.w3.org/2000/svg\" width=\"288\" height=\"288\" viewBox=\"0 0 288 288\">\n  <rect width=\"288\" height=\"288\" fill=\"#121216\"/>\n  <image href=\"".to_owned();
    s.append(logo_uri);
    s.append("\" x=\"44\" y=\"36\" width=\"200\" height=\"200\"/>\n</svg>");
    s
}

/// A key tile at `(x, y)`, `width` tenths of a pixel wide, holding the
/// plugin's key art for these levels.
pub open spec fn nested_key_text(x: u64, y: u64, width: u64, left: u8, right: u8, left_chg: bool, right_chg: bool, show_pct: bool) -> Seq<char> {
    "<svg x=\""@
        + dec(x as nat)
        + "\" y=\""@
        + dec(y as nat)
        + "\" width=\""@
        + display_tenths(width as nat)
        + "\" height=\""@
        + display_tenths(width as nat)
        + "\" viewBox=\"0 0 72 72\" shape-rendering=\"geometricPrecision\">"@
        + levels_svg_body(preview_levels(left, right, left_chg, right_chg), show_pct)
        + "</svg>"@
}

/// A key tile at pixel `(x, y)` scaled to `72 * scale_tenths / 10` pixels,
/// showing the plugin's own key art.
pub fn nested_key(x: u64, y: u64, scale_tenths: u64, left: u8, right: u8, left_chg: bool, right_chg: bool, show_pct: bool) -> (s: String)
    requires
        scale_tenths <= u64::MAX / 72,
    ensures
        s@ == nested_key_text(x, y, (72 * scale_tenths) as u64, left, right, left_chg, right_chg, show_pct),
{
    let width = 72 * scale_tenths;
    let mut s = "<svg x=\"".to_owned();
    s.append(dec_string(x).as_str());
    s.append("\" y=\"");
    s.append(dec_string(y).as_str());
    s.append("\" width=\"");
    s.append(display_tenths_string(width).as_str());
    s.append("\" height=\"");
    s.append(display_tenths_string(width).as_str());
    s.append("\" viewBox=\"0 0 72 72\" shape-rendering=\"geometricPrecision\">");
    s.append(render_levels_svg_body(&levels(left, right, left_chg, right_chg), show_pct).as_str());
    s.append("</svg>");
    s
}

/// The caption under thumbnail key `k`, centred below it.
pub open spec fn thumbnail_caption(k: nat) -> Seq<char> {
    "<text x=\""@
        + thumbnail_label_x(k)
        + "\" y=\"740\" text-anchor=\"middle\" fill=\"#71717a\" font-family=\""@
        + FONT_STACK@
        + "\" font-size=\"16\">"@
        + escape_text(thumbnail_label(k))
        + "</text>"@
}

fn thumbnail_caption_string(k: u64) -> (s: String)
    requires
        k < 4,
    ensures
        s@ == thumbnail_caption(k as nat),
{
    let mut s = "<text x=\"".to_owned();
    s.append(thumbnail_label_x_str(k));
    s.append("\" y=\"740\" text-anchor=\"middle\" fill=\"#71717a\" font-family=\"");
    s.append(FONT_STACK);
    s.append("\" font-size=\"16\">");
    s.append(esc(thumbnail_label_str(k)).as_str());
    s.append("</text>");
    s
}

/// One wrapped line of a card description: the first line stays on the
/// baseline, each further line moves down 22 pixels.
pub open spec fn tspan_text(tx: u64, i: nat, line: Seq<char>) -> Seq<char> {
    "<tspan x=\""@
        + dec(tx as nat)
        + "\" dy=\""@
        + dec(((if i == 0 { 0int } else { 22int })) as nat)
        + "\">"@
        + escape_text(line)
        + "</tspan>"@
}

fn tspan_string(tx: u64, i: usize, line: &str) -> (s: String)
    ensures
        s@ == tspan_text(tx, i as nat, line@),
{
    let dy: u64 = if i == 0 { 0 } else { 22 };
    let mut s = "<tspan x=\"".to_owned();
    s.append(dec_string(tx).as_str());
    s.append("\" dy=\"");
    s.append(dec_string(dy).as_str());
    s.append("\">");
    s.append(esc(line).as_str());
    s.append("</tspan>");
    s
}

/// Setup card `k` of the "How It Works" gallery, its left edge at `x`: a
/// dark card, the step title, and the description wrapped at 34 bytes.
pub open spec fn setup_card_text(k: nat, x: u64) -> Seq<char> {
    "<rect x=\""@
        + dec(x as nat)
        + "\" y=\"340\" width=\"400\" height=\"200\" rx=\"16\" fill=\"#1c1c24\"/>\n<text x=\""@
        + dec((x + 24) as nat)
        + "\" y=\"400\" fill=\"#ffffff\" font-family=\""@
        + FONT_STACK@
        + "\" font-size=\"20\" font-weight=\"700\">"@
        + escape_text(setup_step(k).0)
        + "</text>\n<text x=\""@
        + dec((x + 24) as nat)
        + "\" y=\"450\" fill=\"#b4b4be\" font-family=\""@
        + FONT_STACK@
        + "\" font-size=\"16\">"@
        + tspans((x + 24) as u64, wrap_lines(setup_step(k).1, 34), wrap_lines(setup_step(k).1, 34).len())
        + "</text>\n"@
}

fn setup_card_string(k: u64, x: u64) -> (s: String)
    requires
        k < 4,
        x <= 10000,
    ensures
        s@ == setup_card_text(k as nat, x),
{
    let (title, desc) = setup_step_strs(k);
    let lines = wrap_text(desc, 34);
    let ghost wrapped = wrap_lines(setup_step(k as nat).1, 34);
    let mut text_lines = String::new();
    let mut i: usize = 0;
    while i < lines.len()
        invariant
            i <= lines.len(),
            x <= 10000,
            string_views(lines@) == wrapped,
            text_lines@ == tspans((x + 24) as u64, wrapped, i as nat),
        decreases lines.len() - i,
    {
        assert(lines@[i as int]@ == wrapped[i as int]);
        text_lines.append(tspan_string(x + 24, i, lines[i].as_str()).as_str());
        i = i + 1;
    }
    let mut s = "<rect x=\"".to_owned();
    s.append(dec_string(x).as_str());
    s.append("\" y=\"340\" width=\"400\" height=\"200\" rx=\"16\" fill=\"#1c1c24\"/>\n<text x=\"");
    s.append(dec_string(x + 24).as_str());
    s.append("\" y=\"400\" fill=\"#ffffff\" font-family=\"");
    s.append(FONT_STACK);
    s.append("\" font-size=\"20\" font-weight=\"700\">");
    s.append(esc(title).as_str());
    s.append("</text>\n<text x=\"");
    s.append(dec_string(x + 24).as_str());
    s.append("\" y=\"450\" fill=\"#b4b4be\" font-family=\"");
    s.append(FONT_STACK);
    s.append("\" font-size=\"16\">");
    s.append(text_lines.as_str());
    s.append("</text>\n");
    s
}

/// Board card `k` of the "Supported Boards" gallery, its left edge at `x`:
/// a dark card with the product photo in a rounded well, then name,
/// description, support status and platforms.
pub open spec fn board_card_text(k: nat, x: u64, img: Seq<char>) -> Seq<char> {
    "<rect x=\""@
        + dec(x as nat)
        + "\" y=\"300\" width=\"520\" height=\"480\" rx=\"20\" fill=\"#1c1c24\"/>\n<svg x=\""@
        + dec((x + 20) as nat)
        + "\" y=\"320\" width=\"480\" height=\"250\">\n  <rect width=\"480\" height=\"250\" rx=\"14\" fill=\"#121218\"/>\n  <image href=\""@
        + img
        + "\" x=\"0\" y=\"0\" width=\"480\" height=\"250\" preserveAspectRatio=\"xMidYMid meet\"/>\n</svg>\n<text x=\""@
        + dec((x + 28) as nat)
        + "\" y=\"616\" fill=\"#ffffff\" font-family=\""@
        + FONT_STACK@
        + "\" font-size=\"26\" font-weight=\"700\">"@
        + escape_text(board(k).0)
        + "</text>\n<text x=\""@
        + dec((x + 28) as nat)
        + "\" y=\"646\" fill=\"#a1a1aa\" font-family=\""@
        + FONT_STACK@
        + "\" font-size=\"15\">"@
        + escape_text(board(k).1)
        + "</text>\n<text x=\""@
        + dec((x + 28) as nat)
        + "\" y=\"684\" fill=\"#f43f27\" font-family=\""@
        + FONT_STACK@
        + "\" font-size=\"14\" font-weight=\"700\">"@
        + escape_text(board(k).2)
        + "</text>\n<text x=\""@
        + dec((x + 28) as nat)
        + "\" y=\"712\" fill=\"#a1a1aa\" font-family=\""@
        + FONT_STACK@
        + "\" font-size=\"13\">Windows Primary  |  macOS Beta</text>\n"@
}

fn board_card_string(k: u64, x: u64, img: &str) -> (s: String)
    requires
        k < 3,
        x <= 10000,
    ensures
        s@ == board_card_text(k as nat, x, img@),
{
    let (name, desc, status) = board_strs(k);
    let mut s = "<rect x=\"".to_owned();
    s.append(dec_string(x).as_str());
    s.append("\" y=\"300\" width=\"520\" height=\"480\" rx=\"20\" fill=\"#1c1c24\"/>\n<svg x=\"");
    s.append(dec_string(x + 20).as_str());
    s.append("\" y=\"320\" width=\"480\" height=\"250\">\n  <rect width=\"480\" height=\"250\" rx=\"14\" fill=\"#121218\"/>\n  <image href=\"");
    s.append(img);
    s.append("\" x=\"0\" y=\"0\" width=\"480\" height=\"250\" preserveAspectRatio=\"xMidYMid meet\"/>\n</svg>\n<text x=\"");
    s.append(dec_string(x + 28).as_str());
    s.append("\" y=\"616\" fill=\"#ffffff\" font-family=\"");
    s.append(FONT_STACK);
    s.append("\" font-size=\"26\" font-weight=\"700\">");
    s.append(esc(name).as_str());
    s.append("</text>\n<text x=\"");
    s.append(dec_string(x + 28).as_str());
    s.append("\" y=\"646\" fill=\"#a1a1aa\" font-family=\"");
    s.append(FONT_STACK);
    s.append("\" font-size=\"15\">");
    s.append(esc(desc).as_str());
    s.append("</text>\n<text x=\"");
    s.append(dec_string(x + 28).as_str());
    s.append("\" y=\"684\" fill=\"#f43f27\" font-family=\"");
    s.append(FONT_STACK);
    s.append("\" font-size=\"14\" font-weight=\"700\">");
    s.append(esc(status).as_str());
    s.append("</text>\n<text x=\"");
    s.append(dec_string(x + 28).as_str());
    s.append("\" y=\"712\" fill=\"#a1a1aa\" font-family=\"");
    s.append(FONT_STACK);
    s.append("\" font-size=\"13\">Windows Primary  |  macOS Beta</text>\n");
    s
}

// ---------------------------------------------------------------------------
// Thumbnail and galleries
// ---------------------------------------------------------------------------

/// Caption of thumbnail key `k`.
pub open spec fn thumbnail_label(k: nat) -> Seq<char> {
    if k == 0 {
        "Charging"@
    } else if k == 1 {
        "Mid Charge"@
    } else if k == 2 {
        "Low"@
    } else {
        "Bars Only"@
    }
}

fn thumbnail_label_str(k: u64) -> (s: &'static str)
    requires
        k < 4,
    ensures
        s@ == thumbnail_label(k as nat),
{
    if k == 0 {
        "Charging"
    } else if k == 1 {
        "Mid Charge"
    } else if k == 2 {
        "Low"
    } else {
        "Bars Only"
    }
}

/// Centre of thumbnail key `k` (its left edge plus half of the 302.4-pixel
/// key), as double-precision arithmetic prints it.
pub open spec fn thumbnail_label_x(k: nat) -> Seq<char> {
    if k == 0 {
        "431.20000000000005"@
    } else if k == 1 {
        "771.2"@
    } else if k == 2 {
        "1111.2"@
    } else {
        "1451.2"@
    }
}

fn thumbnail_label_x_str(k: u64) -> (s: &'static str)
    requires
        k < 4,
    ensures
        s@ == thumbnail_label_x(k as nat),
{
    if k == 0 {
        "431.20000000000005"
    } else if k == 1 {
        "771.2"
    } else if k == 2 {
        "1111.2"
    } else {
        "1451.2"
    }
}

/// Closing line of the thumbnail.
pub const THUMBNAIL_FOOTER: &'static str = "<text x=\"80\" y=\"900\" fill=\"#f43f27\" font-family=\"Segoe UI, Arial, Helvetica, sans-serif\" font-size=\"14\" font-weight=\"700\">By Eminence  |  Unofficial Community Plugin  |  Logo Used with Permission</text>";

/// The thumbnail body: four 302.4-pixel key tiles (both sides charging,
/// mid charge, low, bars only), their captions and the credit line.
pub open spec fn thumbnail_text() -> Seq<char> {
    nested_key_text(280, 360, 3024, 100, 40, true, true, true) + nested_key_text(
        620,
        360,
        3024,
        72,
        55,
        false,
        false,
        true,
    ) + nested_key_text(960, 360, 3024, 18, 8, false, false, true) + nested_key_text(
        1300,
        360,
        3024,
        90,
        90,
        false,
        false,
        false,
    ) + thumbnail_caption(0) + thumbnail_caption(1) + thumbnail_caption(2) + thumbnail_caption(3)
        + THUMBNAIL_FOOTER@
}

/// The thumbnail body with the plugin's key art in four scenarios.
pub fn thumbnail_body() -> (s: String)
    ensures
        s@ == thumbnail_text(),
{
    let mut s = nested_key(280, 360, 42, 100, 40, true, true, true);
    s.append(nested_key(620, 360, 42, 72, 55, false, false, true).as_str());
    s.append(nested_key(960, 360, 42, 18, 8, false, false, true).as_str());
    s.append(nested_key(1300, 360, 42, 90, 90, false, false, false).as_str());
    s.append(thumbnail_caption_string(0).as_str());
    s.append(thumbnail_caption_string(1).as_str());
    s.append(thumbnail_caption_string(2).as_str());
    s.append(thumbnail_caption_string(3).as_str());
    s.append(THUMBNAIL_FOOTER);
    s
}

/// The key-art gallery body: two 468-pixel tiles (both sides charging;
/// right side charging).
pub open spec fn gallery01_text() -> Seq<char> {
    nested_key_text(420, 320, 4680, 100, 40, true, true, true) + nested_key_text(
        1000,
        320,
        4680,
        55,
        75,
        false,
        true,
        true,
    )
}

/// The key-art gallery body.
pub fn gallery01_body() -> (s: String)
    ensures
        s@ == gallery01_text(),
{
    let mut s = nested_key(420, 320, 65, 100, 40, true, true, true);
    s.append(nested_key(1000, 320, 65, 55, 75, false, true, true).as_str());
    s
}

/// Step `k` of the setup gallery: its title and description.
pub open spec fn setup_step(k: nat) -> (Seq<char>, Seq<char>) {
    if k == 0 {
        ("1. Neuron on USB"@, "Focus Serial (Not Pure Bluetooth Mode)"@)
    } else if k == 1 {
        ("2. Halves on RF"@, "Wireless Battery Fuel-Gauge over RF to Neuron"@)
    } else if k == 2 {
        ("3. Close Bazecor"@, "One Process Owns the Serial Port at a Time"@)
    } else {
        ("4. Drop on a Key"@, "Auto-Poll; Press Key to Force Refresh"@)
    }
}

fn setup_step_strs(k: u64) -> (step: (&'static str, &'static str))
    requires
        k < 4,
    ensures
        step.0@ == setup_step(k as nat).0,
        step.1@ == setup_step(k as nat).1,
{
    if k == 0 {
        ("1. Neuron on USB", "Focus Serial (Not Pure Bluetooth Mode)")
    } else if k == 1 {
        ("2. Halves on RF", "Wireless Battery Fuel-Gauge over RF to Neuron")
    } else if k == 2 {
        ("3. Close Bazecor", "One Process Owns the Serial Port at a Time")
    } else {
        ("4. Drop on a Key", "Auto-Poll; Press Key to Force Refresh")
    }
}

/// The first `n` wrapped lines of a description.
pub open spec fn tspans(tx: u64, lines: Seq<Seq<char>>, n: nat) -> Seq<char>
    decreases n,
{
    if n == 0 {
        seq![]
    } else {
        tspans(tx, lines, (n - 1) as nat) + tspan_text(tx, (n - 1) as nat, lines[n - 1])
    }
}

/// The first `n` setup cards, 440 pixels apart from x = 120.
pub open spec fn setup_cards(n: nat) -> Seq<char>
    decreases n,
{
    if n == 0 {
        seq![]
    } else {
        setup_cards((n - 1) as nat) + setup_card_text((n - 1) as nat, (120 + 440 * (n - 1)) as u64)
    }
}

/// The setup gallery body: four step cards.
pub fn gallery02_body() -> (s: String)
    ensures
        s@ == setup_cards(4),
{
    let mut s = String::new();
    let mut x: u64 = 120;
    let mut k: u64 = 0;
    while k < 4
        invariant
            k <= 4,
            x == 120 + 440 * k,
            s@ == setup_cards(k as nat),
        decreases 4 - k,
    {
        s.append(setup_card_string(k, x).as_str());
        x = x + 440;
        k = k + 1;
    }
    s
}

/// Board `k` of the boards gallery: name, description, support status.
pub open spec fn board(k: nat) -> (Seq<char>, Seq<char>, Seq<char>) {
    if k == 0 {
        ("Defy"@, "Columnar Wireless"@, "Verified"@)
    } else if k == 1 {
        ("Raise 2"@, "Row-Staggered Wireless"@, "Beta"@)
    } else {
        ("Sonsei"@, "Low-Profile Wireless"@, "Beta"@)
    }
}

fn board_strs(k: u64) -> (b: (&'static str, &'static str, &'static str))
    requires
        k < 3,
    ensures
        b.0@ == board(k as nat).0,
        b.1@ == board(k as nat).1,
        b.2@ == board(k as nat).2,
{
    if k == 0 {
        ("Defy", "Columnar Wireless", "Verified")
    } else if k == 1 {
        ("Raise 2", "Row-Staggered Wireless", "Beta")
    } else {
        ("Sonsei", "Low-Profile Wireless", "Beta")
    }
}

/// The first `n` board cards, 560 pixels apart from x = 140 (three 520-pixel
/// cards with 40-pixel gaps, centred on the banner), with their photos.
pub open spec fn board_cards(photos: Seq<Seq<char>>, n: nat) -> Seq<char>
    decreases n,
{
    if n == 0 {
        seq![]
    } else {
        board_cards(photos, (n - 1) as nat) + board_card_text(
            (n - 1) as nat,
            (140 + 560 * (n - 1)) as u64,
            photos[n - 1],
        )
    }
}

/// The boards gallery body: Defy, Raise 2 and Sonsei with their photos.
pub fn gallery03_body(defy: &str, raise2: &str, sonsei: &str) -> (s: String)
    ensures
        s@ == board_cards(seq![defy@, raise2@, sonsei@], 3),
{
    let ghost photos = seq![defy@, raise2@, sonsei@];
    let mut s = String::new();
    let mut x: u64 = (BANNER_W - (3 * 520 + 2 * 40)) / 2;
    let mut k: u64 = 0;
    while k < 3
        invariant
            k <= 3,
            x == 140 + 560 * k,
            photos == seq![defy@, raise2@, sonsei@],
            s@ == board_cards(photos, k as nat),
        decreases 3 - k,
    {
        let img = if k == 0 {
            defy
        } else if k == 1 {
            raise2
        } else {
            sonsei
        };
        assert(img@ == photos[k as int]);
        s.append(board_card_string(k, x, img).as_str());
        x = x + 560;
        k = k + 1;
    }
    s
}

/// A base64 `data:` URI for PNG bytes.
pub open spec fn png_data_uri_text(bytes: Seq<u8>) -> Seq<char> {
    PNG_DATA_URI_PREFIX@ + base64_standard(bytes)
}

/// Encodes PNG bytes as a `data:image/png;base64,...` URI.
pub fn png_data_uri(bytes: &[u8]) -> (uri: String)
    ensures
        uri@ == png_data_uri_text(bytes@),
{
    let mut uri = PNG_DATA_URI_PREFIX.to_owned();
    base64_encode_into(bytes, &mut uri);
    uri
}


// ---------------------------------------------------------------------------
// Laws
// ---------------------------------------------------------------------------

/// Escaped text holds no `<`, `>` or `"`: it cannot open or close markup
/// or end an attribute.
pub proof fn lemma_escape_has_no_markup(s: Seq<char>)
    ensures
        forall|i: int|
            0 <= i < escape_text(s).len() ==> #[trigger] escape_text(s)[i] != '<'
                && escape_text(s)[i] != '>' && escape_text(s)[i] != '"',
    decreases s.len(),
{
    reveal_strlit("&amp;");
    reveal_strlit("&lt;");
    reveal_strlit("&gt;");
    reveal_strlit("&quot;");
    if s.len() > 0 {
        lemma_escape_has_no_markup(s.drop_last());
        let a = escape_text(s.drop_last());
        let b = escape_char(s.last());
        assert forall|i: int| 0 <= i < escape_text(s).len() implies #[trigger] escape_text(s)[i]
            != '<' && escape_text(s)[i] != '>' && escape_text(s)[i] != '"' by {
            if i >= a.len() {
                assert(escape_text(s)[i] == b[i - a.len()]);
            } else {
                assert(escape_text(s)[i] == a[i]);
            }
        }
    }
}

/// `t` with every occurrence of `pat` replaced by `rep`, found left to
/// right without overlapping, as `str::replace` does for a non-empty
/// pattern (an empty pattern leaves `t` as it is here).
pub open spec fn replace_text(t: Seq<char>, pat: Seq<char>, rep: Seq<char>) -> Seq<char>
    decreases t.len(),
{
    if t.len() == 0 || pat.len() == 0 {
        t
    } else if t.len() >= pat.len() && t.take(pat.len() as int) == pat {
        rep + replace_text(t.skip(pat.len() as int), pat, rep)
    } else {
        seq![t[0]] + replace_text(t.skip(1), pat, rep)
    }
}

/// Reading an escaped text back with `str::replace`: `&quot;`, `&gt;`,
/// `&lt;` and last `&amp;` replaced by their characters.
pub open spec fn unescape_text(t: Seq<char>) -> Seq<char> {
    replace_text(
        replace_text(
            replace_text(replace_text(t, "&quot;"@, seq!['"']), "&gt;"@, seq!['>']),
            "&lt;"@,
            seq!['<'],
        ),
        "&amp;"@,
        seq!['&'],
    )
}

/// Whether a character is one that escaping rewrites.
pub open spec fn is_markup_char(c: char) -> bool {
    c == '&' || c == '<' || c == '>' || c == '"'
}

/// A text with only the characters in `marked` escaped, front to back.
pub open spec fn escape_only(s: Seq<char>, marked: Set<char>) -> Seq<char>
    decreases s.len(),
{
    if s.len() == 0 {
        seq![]
    } else {
        (if marked.contains(s[0]) {
            escape_char(s[0])
        } else {
            seq![s[0]]
        }) + escape_only(s.skip(1), marked)
    }
}

proof fn lemma_escape_concat(a: Seq<char>, b: Seq<char>)
    ensures
        escape_text(a + b) == escape_text(a) + escape_text(b),
    decreases b.len(),
{
    if b.len() == 0 {
        assert(a + b =~= a);
        assert(escape_text(a) + escape_text(b) =~= escape_text(a));
    } else {
        lemma_escape_concat(a, b.drop_last());
        assert((a + b).drop_last() =~= a + b.drop_last());
        assert((a + b).last() == b.last());
        assert(escape_text(a + b) =~= escape_text(a) + escape_text(b));
    }
}

proof fn lemma_escape_is_escape_only(s: Seq<char>)
    ensures
        escape_text(s) == escape_only(s, set!['&', '<', '>', '"']),
    decreases s.len(),
{
    if s.len() > 0 {
        let head = seq![s[0]];
        let tail = s.skip(1);
        lemma_escape_is_escape_only(tail);
        assert(head + tail =~= s);
        lemma_escape_concat(head, tail);
        assert(head.drop_last() =~= Seq::<char>::empty());
        assert(escape_text(head.drop_last()) =~= Seq::<char>::empty());
        assert(escape_text(head) =~= escape_char(s[0]));
    }
}

proof fn lemma_escape_only_plain(s: Seq<char>, marked: Set<char>)
    requires
        forall|i: int| 0 <= i < s.len() ==> !marked.contains(#[trigger] s[i]),
    ensures
        escape_only(s, marked) == s,
    decreases s.len(),
{
    if s.len() > 0 {
        let tail = s.skip(1);
        assert forall|i: int| 0 <= i < tail.len() implies !marked.contains(#[trigger] tail[i]) by {
            assert(tail[i] == s[i + 1]);
        }
        lemma_escape_only_plain(tail, marked);
        assert(!marked.contains(s[0]));
        assert(seq![s[0]] + tail =~= s);
    }
}

proof fn lemma_replace_passes_over(u: Seq<char>, v: Seq<char>, pat: Seq<char>, rep: Seq<char>)
    requires
        pat.len() > 0,
        pat[0] == '&',
        forall|i: int| 0 <= i < u.len() ==> #[trigger] u[i] != '&',
    ensures
        replace_text(u + v, pat, rep) == u + replace_text(v, pat, rep),
    decreases u.len(),
{
    if u.len() == 0 {
        assert(u + v =~= v);
        assert(u + replace_text(v, pat, rep) =~= replace_text(v, pat, rep));
    } else {
        let t = u + v;
        assert(t[0] == u[0]);
        if t.len() >= pat.len() {
            assert(t.take(pat.len() as int)[0] != pat[0]);
        }
        let u1 = u.skip(1);
        assert forall|i: int| 0 <= i < u1.len() implies #[trigger] u1[i] != '&' by {
            assert(u1[i] == u[i + 1]);
        }
        lemma_replace_passes_over(u1, v, pat, rep);
        assert(t.skip(1) =~= u1 + v);
        assert(seq![u[0]] + u1 =~= u);
        assert(replace_text(t, pat, rep) == seq![t[0]] + replace_text(t.skip(1), pat, rep));
        assert(seq![u[0]] + (u1 + replace_text(v, pat, rep)) =~= u + replace_text(v, pat, rep));
    }
}

proof fn lemma_replace_entity(s: Seq<char>, marked: Set<char>, c: char)
    requires
        marked.contains('&'),
        marked.contains(c),
        is_markup_char(c),
    ensures
        replace_text(escape_only(s, marked), escape_char(c), seq![c]) == escape_only(
            s,
            marked.remove(c),
        ),
    decreases s.len(),
{
    reveal_strlit("&amp;");
    reveal_strlit("&lt;");
    reveal_strlit("&gt;");
    reveal_strlit("&quot;");
    if s.len() > 0 {
        let x = s[0];
        let tail = s.skip(1);
        let pat = escape_char(c);
        let rest = escape_only(tail, marked);
        lemma_replace_entity(tail, marked, c);
        let piece = if marked.contains(x) {
            escape_char(x)
        } else {
            seq![x]
        };
        let t = piece + rest;
        assert(escape_only(s, marked) == t);
        if marked.contains(x) && x == c {
            assert(t.take(pat.len() as int) =~= pat);
            assert(t.skip(pat.len() as int) =~= rest);
            assert(!marked.remove(c).contains(x));
        } else if marked.contains(x) && is_markup_char(x) {
            assert(marked.remove(c).contains(x));
            assert(piece[0] == '&');
            assert(piece.len() >= 4);
            if t.len() >= pat.len() {
                assert(t.take(pat.len() as int)[1] != pat[1]);
            }
            let ptail = piece.skip(1);
            assert forall|i: int| 0 <= i < ptail.len() implies #[trigger] ptail[i] != '&' by {
                assert(ptail[i] == piece[i + 1]);
            }
            lemma_replace_passes_over(ptail, rest, pat, seq![c]);
            assert(t.skip(1) =~= ptail + rest);
            assert(seq![piece[0]] + ptail =~= piece);
            assert(replace_text(t, pat, seq![c]) == seq![t[0]] + replace_text(t.skip(1), pat, seq![c]));
            assert(seq![t[0]] + (ptail + replace_text(rest, pat, seq![c])) =~= piece + replace_text(
                rest,
                pat,
                seq![c],
            ));
        } else {
            assert(x != '&');
            assert(piece =~= seq![x]);
            assert(marked.contains(x) ==> marked.remove(c).contains(x));
            assert(!marked.contains(x) ==> !marked.remove(c).contains(x));
            lemma_replace_passes_over(piece, rest, pat, seq![c]);
        }
    }
}

/// Escaping loses nothing: replacing `&quot;`, `&gt;`, `&lt;` and last
/// `&amp;` by their characters gives the text back. A text with none of
/// `&`, `<`, `>`, `"` is left as it is.
pub proof fn lemma_escape_round_trip(s: Seq<char>)
    ensures
        unescape_text(escape_text(s)) == s,
        (forall|i: int| 0 <= i < s.len() ==> !is_markup_char(#[trigger] s[i])) ==> escape_text(s)
            == s,
{
    let m0 = set!['&', '<', '>', '"'];
    let m1 = m0.remove('"');
    let m2 = m1.remove('>');
    let m3 = m2.remove('<');
    lemma_escape_is_escape_only(s);
    reveal_strlit("&amp;");
    reveal_strlit("&lt;");
    reveal_strlit("&gt;");
    reveal_strlit("&quot;");
    assert(escape_char('"') == "&quot;"@);
    assert(escape_char('>') == "&gt;"@);
    assert(escape_char('<') == "&lt;"@);
    assert(escape_char('&') == "&amp;"@);
    lemma_replace_entity(s, m0, '"');
    lemma_replace_entity(s, m1, '>');
    lemma_replace_entity(s, m2, '<');
    lemma_replace_entity(s, m3, '&');
    assert(m3.remove('&') =~= Set::<char>::empty());
    lemma_escape_only_plain(s, Set::<char>::empty());
    if forall|i: int| 0 <= i < s.len() ==> !is_markup_char(#[trigger] s[i]) {
        assert forall|i: int| 0 <= i < s.len() implies !m0.contains(#[trigger] s[i]) by {
            assert(!is_markup_char(s[i]));
        }
        lemma_escape_only_plain(s, m0);
    }
}

/// Words joined by single spaces.
pub open spec fn join_words(words: Seq<Seq<char>>) -> Seq<char>
    decreases words.len(),
{
    if words.len() == 0 {
        seq![]
    } else if words.len() == 1 {
        words[0]
    } else {
        join_words(words.drop_last()) + seq![' '] + words.last()
    }
}

proof fn lemma_split_words_nonempty(s: Seq<char>)
    ensures
        forall|i: int| 0 <= i < split_words(s).0.len() ==> #[trigger] split_words(s).0[i].len() > 0,
    decreases s.len(),
{
    if s.len() > 0 {
        lemma_split_words_nonempty(s.drop_last());
        let (words, cur) = split_words(s.drop_last());
        if white_space(s.last()) && cur.len() > 0 {
            assert forall|i: int| 0 <= i < words.push(cur).len() implies #[trigger] words.push(
                cur,
            )[i].len() > 0 by {
                if i < words.len() {
                    assert(words.push(cur)[i] == words[i]);
                }
            }
        }
    }
}

proof fn lemma_join_push(words: Seq<Seq<char>>, w: Seq<char>)
    requires
        words.len() > 0,
    ensures
        join_words(words.push(w)) == join_words(words) + seq![' '] + w,
{
    assert(words.push(w).drop_last() =~= words);
}

proof fn lemma_wrap_fold_joins(words: Seq<Seq<char>>, max: nat, n: nat)
    requires
        n <= words.len(),
        forall|i: int| 0 <= i < words.len() ==> #[trigger] words[i].len() > 0,
    ensures
        n > 0 ==> wrap_fold(words, max, n).1.len() > 0,
        n > 0 ==> join_words(wrap_fold(words, max, n).0.push(wrap_fold(words, max, n).1))
            == join_words(words.take(n as int)),
        n == 0 ==> wrap_fold(words, max, n).0.len() == 0 && wrap_fold(words, max, n).1.len() == 0,
    decreases n,
{
    if n > 0 {
        let m = (n - 1) as nat;
        lemma_wrap_fold_joins(words, max, m);
        let (lines, cur) = wrap_fold(words, max, m);
        let w = words[m as int];
        assert(words.take(n as int) =~= words.take(m as int).push(w));
        if m == 0 {
            assert(words.take(n as int) =~= seq![w]);
            assert(lines.push(w) =~= seq![w]);
        } else {
            lemma_join_push(words.take(m as int), w);
            if byte_len(cur) + 1 + byte_len(w) <= max {
                let joined = cur + seq![' '] + w;
                if lines.len() == 0 {
                    assert(lines.push(joined) =~= seq![joined]);
                    assert(lines.push(cur) =~= seq![cur]);
                } else {
                    lemma_join_push(lines, joined);
                    lemma_join_push(lines, cur);
                    assert(join_words(lines) + seq![' '] + joined =~= join_words(lines) + seq![' ']
                        + cur + seq![' '] + w);
                }
            } else {
                lemma_join_push(lines.push(cur), w);
            }
        }
    }
}

/// Wrapping loses no text: the lines, joined by single spaces, are the words
/// of the text joined by single spaces; a text without words gives one
/// empty line.
pub proof fn lemma_wrap_keeps_words(s: Seq<char>, max: nat)
    ensures
        join_words(wrap_lines(s, max)) == join_words(words_of(s)),
        wrap_lines(s, max).len() >= 1,
        words_of(s).len() == 0 ==> wrap_lines(s, max) == seq![Seq::<char>::empty()],
{
    let words = words_of(s);
    lemma_split_words_nonempty(s);
    assert forall|i: int| 0 <= i < words.len() implies #[trigger] words[i].len() > 0 by {
        if i < split_words(s).0.len() {
            assert(words[i] == split_words(s).0[i]);
        }
    }
    lemma_wrap_fold_joins(words, max, words.len());
    assert(words.take(words.len() as int) =~= words);
    if words.len() == 0 {
        assert(join_words(seq![Seq::<char>::empty()]) =~= Seq::<char>::empty());
    }
}


proof fn lemma_encode_concat(a: Seq<char>, b: Seq<char>)
    ensures
        encode_utf8(a + b) == encode_utf8(a) + encode_utf8(b),
    decreases a.len(),
{
    if a.len() == 0 {
        assert(a + b =~= b);
        assert(encode_utf8(a) + encode_utf8(b) =~= encode_utf8(b));
    } else {
        lemma_encode_concat(a.drop_first(), b);
        assert((a + b).drop_first() =~= a.drop_first() + b);
        assert((a + b)[0] == a[0]);
        assert(encode_utf8(a + b) =~= encode_scalar(a[0] as u32) + (encode_utf8(a.drop_first())
            + encode_utf8(b)));
    }
}

/// Lines the greedy fill may produce from `words` at `max` bytes: within
/// `max` bytes, or one of the words.
pub open spec fn line_fits(words: Seq<Seq<char>>, max: nat, line: Seq<char>) -> bool {
    encode_utf8(line).len() <= max || words.contains(line)
}

proof fn lemma_wrap_fold_fits(words: Seq<Seq<char>>, max: usize, n: nat)
    requires
        n <= words.len(),
        forall|i: int| 0 <= i < words.len() ==> encode_utf8(#[trigger] words[i]).len() <= usize::MAX,
    ensures
        forall|i: int|
            0 <= i < wrap_fold(words, max as nat, n).0.len() ==> line_fits(
                words,
                max as nat,
                #[trigger] wrap_fold(words, max as nat, n).0[i],
            ),
        line_fits(words, max as nat, wrap_fold(words, max as nat, n).1),
        encode_utf8(wrap_fold(words, max as nat, n).1).len() <= usize::MAX,
    decreases n,
{
    if n == 0 {
        assert(encode_utf8(Seq::<char>::empty()).len() == 0);
    } else {
        let m = (n - 1) as nat;
        lemma_wrap_fold_fits(words, max, m);
        let (lines, cur) = wrap_fold(words, max as nat, m);
        let w = words[m as int];
        assert(words.contains(w));
        if cur.len() == 0 {
        } else if byte_len(cur) + 1 + byte_len(w) <= max {
            lemma_encode_concat(cur, seq![' ']);
            lemma_encode_concat(cur + seq![' '], w);
            assert(encode_utf8(seq![' ']) =~= encode_scalar(' ' as u32) + encode_utf8(
                seq![' '].drop_first(),
            ));
            assert(encode_utf8(seq![' ']).len() == 1);
        } else {
            let next = lines.push(cur);
            assert forall|i: int| 0 <= i < next.len() implies line_fits(
                words,
                max as nat,
                #[trigger] next[i],
            ) by {
                if i < lines.len() {
                    assert(next[i] == lines[i]);
                }
            }
        }
    }
}

/// Wrapped lines fit: every line is at most `max` bytes long, unless it is
/// a single word longer than that (words are never split). Each word is
/// taken to fit in memory, within `usize::MAX` bytes.
pub proof fn lemma_wrap_lines_fit(s: Seq<char>, max: usize)
    requires
        forall|i: int|
            0 <= i < words_of(s).len() ==> encode_utf8(#[trigger] words_of(s)[i]).len() <= usize::MAX,
    ensures
        forall|i: int|
            0 <= i < wrap_lines(s, max as nat).len() ==> line_fits(
                words_of(s),
                max as nat,
                #[trigger] wrap_lines(s, max as nat)[i],
            ),
{
    let words = words_of(s);
    lemma_wrap_fold_fits(words, max, words.len());
    let (lines, cur) = wrap_fold(words, max as nat, words.len());
    let all = if cur.len() > 0 {
        lines.push(cur)
    } else {
        lines
    };
    assert forall|i: int| 0 <= i < all.len() implies line_fits(words, max as nat, #[trigger] all[i]) by {
        if i < lines.len() {
            assert(all[i] == lines[i]);
        }
    }
    if all.len() == 0 {
        assert(encode_utf8(Seq::<char>::empty()).len() == 0);
        assert(wrap_lines(s, max as nat)[0] == Seq::<char>::empty());
    }
}

} // verus!
