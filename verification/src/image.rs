//! SVG button images for the Stream Deck, with a battery indicator.

use base64::{engine::general_purpose::STANDARD, Engine};
use vstd::prelude::*;
use vstd::string::StringExecFns;

use crate::text::{chars_of, decimal, push_decimal};

verus! {

// ============================================================================
// XML escaping
// ============================================================================

/// The escaped form of one character.
pub open spec fn escape_char(c: char) -> Seq<char> {
    if c == '&' {
        "&amp;"@
    } else if c == '<' {
        "&lt;"@
    } else if c == '>' {
        "&gt;"@
    } else if c == '"' {
        "&quot;"@
    } else if c == '\'' {
        "&apos;"@
    } else {
        seq![c]
    }
}

/// A text with each XML special character replaced by its entity.
pub open spec fn escaped(s: Seq<char>) -> Seq<char>
    decreases s.len(),
{
    if s.len() == 0 {
        Seq::empty()
    } else {
        escaped(s.drop_last()) + escape_char(s.last())
    }
}

/// Escape special XML characters
pub fn escape_xml(s: &str) -> (r: String)
    ensures
        r@ == escaped(s@),
{
    let chars = chars_of(s);
    let mut r = String::new();
    let mut i: usize = 0;
    while i < chars.len()
        invariant
            chars@ == s@,
            i <= chars@.len(),
            r@ == escaped(chars@.take(i as int)),
        decreases chars@.len() - i,
    {
        let c = chars[i];
        if c == '&' {
            r.append("&amp;");
        } else if c == '<' {
            r.append("&lt;");
        } else if c == '>' {
            r.append("&gt;");
        } else if c == '"' {
            r.append("&quot;");
        } else if c == '\'' {
            r.append("&apos;");
        } else {
            crate::text::push_char(&mut r, c);
        }
        proof {
            assert(chars@.take(i + 1).drop_last() =~= chars@.take(i as int));
            assert(chars@.take(i + 1).last() == c);
        }
        i = i + 1;
    }
    assert(chars@.take(chars@.len() as int) =~= chars@);
    r
}

// ============================================================================
// Battery bar geometry and colours
// ============================================================================

/// The percentage shown: the battery percentage, at most 100.
pub open spec fn shown_percentage(battery_percentage: u8) -> int {
    if battery_percentage < 100 {
        battery_percentage as int
    } else {
        100
    }
}

/// The height of the bar on the 144-pixel button, filling from the bottom.
pub open spec fn bar_height(battery_percentage: u8) -> int {
    shown_percentage(battery_percentage) * 144 / 100
}

/// The top edge of the bar.
pub open spec fn bar_top(battery_percentage: u8) -> int {
    144 - bar_height(battery_percentage)
}

/// The bar colour: light blue while charging, then green above 50%, amber
/// above 20%, red otherwise.
pub open spec fn bar_color(battery_percentage: u8, charging: bool) -> &'static str {
    if charging {
        "#4FC3F7"
    } else if shown_percentage(battery_percentage) > 50 {
        "#4CAF50"
    } else if shown_percentage(battery_percentage) > 20 {
        "#FFC107"
    } else {
        "#F44336"
    }
}

/// The lighter shade of the bar colour, for the bar's top border.
pub open spec fn bar_color_light(battery_percentage: u8, charging: bool) -> &'static str {
    if charging {
        "#81D4FA"
    } else if shown_percentage(battery_percentage) > 50 {
        "#81C784"
    } else if shown_percentage(battery_percentage) > 20 {
        "#FFD54F"
    } else {
        "#E57373"
    }
}

/// A lightning bolt after the percentage while charging.
pub open spec fn charging_indicator(charging: bool) -> Seq<char> {
    if charging {
        " \u{26A1}"@
    } else {
        ""@
    }
}

/// Piece 0 of the battery-bar template.
pub open spec fn bar_svg_piece0() -> Seq<char> {
    "<svg xmlns=\"http://www.w3.org/2000/svg\" width=\"144\" height=\"144\" viewBox=\"0 0 144 144\">\n  <defs>\n    <!-- Gradient for battery bar - fades toward bottom -->\n    <linearGradient id=\"barGrad\" x1=\"0%\" y1=\"0%\" x2=\"0%\" y2=\"100%\">\n      <stop offset=\"0%\" style=\"stop-color:"@
}

/// Piece 1 of the battery-bar template.
pub open spec fn bar_svg_piece1() -> Seq<char> {
    ";stop-opacity:0.8\"/>\n      <stop offset=\"100%\" style=\"stop-color:"@
}

/// Piece 2 of the battery-bar template.
pub open spec fn bar_svg_piece2() -> Seq<char> {
    ";stop-opacity:0.3\"/>\n    </linearGradient>\n  </defs>\n\n  <!-- Background -->\n  <rect width=\"144\" height=\"144\" fill=\"#1a1a1a\"/>\n\n  <!-- Battery bar with gradient -->\n  <rect x=\"0\" y=\""@
}

/// Piece 3 of the battery-bar template.
pub open spec fn bar_svg_piece3() -> Seq<char> {
    "\" width=\"144\" height=\""@
}

/// Piece 4 of the battery-bar template.
pub open spec fn bar_svg_piece4() -> Seq<char> {
    "\" fill=\"url(#barGrad)\"/>\n\n  <!-- Top border/highlight on the bar -->\n  <rect x=\"0\" y=\""@
}

/// Piece 5 of the battery-bar template.
pub open spec fn bar_svg_piece5() -> Seq<char> {
    "\" width=\"144\" height=\"3\" fill=\""@
}

/// Piece 6 of the battery-bar template.
pub open spec fn bar_svg_piece6() -> Seq<char> {
    "\" opacity=\"0.9\"/>\n\n  <!-- Main title text shadow -->\n  <text x=\"72\" y=\"62\" text-anchor=\"middle\" dominant-baseline=\"middle\" font-family=\"Arial, sans-serif\" font-size=\"42\" font-weight=\"bold\" fill=\"#000\" opacity=\"0.4\">"@
}

/// Piece 7 of the battery-bar template.
pub open spec fn bar_svg_piece7() -> Seq<char> {
    "</text>\n\n  <!-- Main title text -->\n  <text x=\"72\" y=\"60\" text-anchor=\"middle\" dominant-baseline=\"middle\" font-family=\"Arial, sans-serif\" font-size=\"42\" font-weight=\"bold\" fill=\"#fff\">"@
}

/// Piece 8 of the battery-bar template.
pub open spec fn bar_svg_piece8() -> Seq<char> {
    "</text>\n\n  <!-- Battery percentage with charging indicator -->\n  <text x=\"72\" y=\"108\" text-anchor=\"middle\" font-family=\"Arial, sans-serif\" font-size=\"24\" font-weight=\"bold\" fill=\"#fff\" opacity=\"0.95\">"@
}

/// Piece 9 of the battery-bar template.
pub open spec fn bar_svg_piece9() -> Seq<char> {
    "%"@
}

/// Piece 10 of the battery-bar template.
pub open spec fn bar_svg_piece10() -> Seq<char> {
    "</text>\n</svg>"@
}

/// The SVG of a battery-bar button.
pub open spec fn battery_bar_svg(title: Seq<char>, battery_percentage: u8, charging: bool) -> Seq<char> {
    bar_svg_piece0()
        + bar_color(battery_percentage, charging)@
        + bar_svg_piece1()
        + bar_color(battery_percentage, charging)@
        + bar_svg_piece2()
        + decimal(bar_top(battery_percentage) as nat)
        + bar_svg_piece3()
        + decimal(bar_height(battery_percentage) as nat)
        + bar_svg_piece4()
        + decimal(bar_top(battery_percentage) as nat)
        + bar_svg_piece5()
        + bar_color_light(battery_percentage, charging)@
        + bar_svg_piece6()
        + escaped(title)
        + bar_svg_piece7()
        + escaped(title)
        + bar_svg_piece8()
        + decimal(shown_percentage(battery_percentage) as nat)
        + bar_svg_piece9()
        + charging_indicator(charging)
        + bar_svg_piece10()
}

/// Piece 0 of the text-only template.
pub open spec fn text_svg_piece0() -> Seq<char> {
    "<svg xmlns=\"http://www.w3.org/2000/svg\" width=\"144\" height=\"144\" viewBox=\"0 0 144 144\">\n  <rect width=\"144\" height=\"144\" fill=\"#1a1a1a\"/>\n  <text x=\"72\" y=\"72\" text-anchor=\"middle\" dominant-baseline=\"middle\" font-family=\"Arial, sans-serif\" font-size=\"36\" font-weight=\"bold\" fill=\"#fff\">"@
}

/// Piece 1 of the text-only template.
pub open spec fn text_svg_piece1() -> Seq<char> {
    "</text>\n</svg>"@
}

/// The SVG of a text-only button.
pub open spec fn text_svg(title: Seq<char>) -> Seq<char> {
    text_svg_piece0() + escaped(title) + text_svg_piece1()
}

/// The data URI prefix of a base64-encoded SVG image.
pub open spec fn svg_data_uri(svg_base64: Seq<char>) -> Seq<char> {
    "data:image/svg+xml;base64,"@ + svg_base64
}

/// The standard base64 encoding (with padding) of the UTF-8 bytes of a text,
/// as `base64::engine::general_purpose::STANDARD` computes it.
pub uninterp spec fn base64_standard(text: Seq<char>) -> Seq<char>;

/// `base64::Engine::encode` of `STANDARD` on the UTF-8 bytes of `text`. The
/// result is named [`base64_standard`]; the encoding itself is not restated.
/// The encoder panics only when the encoded length overflows `usize`, which
/// a string's byte length (at most `isize::MAX`) cannot cause.
#[verifier::external_body]
fn base64_encode(text: &str) -> (r: String)
    ensures
        r@ == base64_standard(text@),
{
    STANDARD.encode(text.as_bytes())
}

/// Generate an SVG image with a battery bar background and text overlay
/// Returns a data URI suitable for Stream Deck's SetImage command
pub fn generate_battery_bar_image(title: &str, battery_percentage: u8, charging: bool) -> (uri:
    String)
    ensures
        uri@ == svg_data_uri(
            base64_standard(battery_bar_svg(title@, battery_percentage, charging)),
        ),
{
    let percentage: u8 = if battery_percentage < 100 {
        battery_percentage
    } else {
        100
    };

    // Colors based on battery level
    let (color, color_light) = if charging {
        ("#4FC3F7", "#81D4FA")  // Light blue when charging
    } else if percentage > 50 {
        ("#4CAF50", "#81C784")  // Green
    } else if percentage > 20 {
        ("#FFC107", "#FFD54F")  // Yellow/amber
    } else {
        ("#F44336", "#E57373")  // Red
    };

    // Calculate bar height (fills from bottom)
    let bar_height: u32 = percentage as u32 * 144 / 100;
    let bar_y: u32 = 144 - bar_height;

    // Charging indicator - lightning bolt
    let indicator = if charging {
        " \u{26A1}"
    } else {
        ""
    };

    let escaped_title = escape_xml(title);

    let mut s = String::new();
    s.append("<svg xmlns=\"http://www.w3.org/2000/svg\" width=\"144\" height=\"144\" viewBox=\"0 0 144 144\">\n  <defs>\n    <!-- Gradient for battery bar - fades toward bottom -->\n    <linearGradient id=\"barGrad\" x1=\"0%\" y1=\"0%\" x2=\"0%\" y2=\"100%\">\n      <stop offset=\"0%\" style=\"stop-color:");
    s.append(color);
    s.append(";stop-opacity:0.8\"/>\n      <stop offset=\"100%\" style=\"stop-color:");
    s.append(color);
    s.append(";stop-opacity:0.3\"/>\n    </linearGradient>\n  </defs>\n\n  <!-- Background -->\n  <rect width=\"144\" height=\"144\" fill=\"#1a1a1a\"/>\n\n  <!-- Battery bar with gradient -->\n  <rect x=\"0\" y=\"");
    push_decimal(&mut s, bar_y as u128);
    s.append("\" width=\"144\" height=\"");
    push_decimal(&mut s, bar_height as u128);
    s.append("\" fill=\"url(#barGrad)\"/>\n\n  <!-- Top border/highlight on the bar -->\n  <rect x=\"0\" y=\"");
    push_decimal(&mut s, bar_y as u128);
    s.append("\" width=\"144\" height=\"3\" fill=\"");
    s.append(color_light);
    s.append("\" opacity=\"0.9\"/>\n\n  <!-- Main title text shadow -->\n  <text x=\"72\" y=\"62\" text-anchor=\"middle\" dominant-baseline=\"middle\" font-family=\"Arial, sans-serif\" font-size=\"42\" font-weight=\"bold\" fill=\"#000\" opacity=\"0.4\">");
    s.append(escaped_title.as_str());
    s.append("</text>\n\n  <!-- Main title text -->\n  <text x=\"72\" y=\"60\" text-anchor=\"middle\" dominant-baseline=\"middle\" font-family=\"Arial, sans-serif\" font-size=\"42\" font-weight=\"bold\" fill=\"#fff\">");
    s.append(escaped_title.as_str());
    s.append("</text>\n\n  <!-- Battery percentage with charging indicator -->\n  <text x=\"72\" y=\"108\" text-anchor=\"middle\" font-family=\"Arial, sans-serif\" font-size=\"24\" font-weight=\"bold\" fill=\"#fff\" opacity=\"0.95\">");
    push_decimal(&mut s, percentage as u128);
    s.append("%");
    s.append(indicator);
    s.append("</text>\n</svg>");
    proof {
        assert(s@ =~= battery_bar_svg(title@, battery_percentage, charging));
    }
    let mut uri = String::from_str("data:image/svg+xml;base64,");
    let encoded = base64_encode(s.as_str());
    uri.append(encoded.as_str());
    uri
}

/// Generate a simple text-only image (no battery bar)
pub fn generate_text_image(title: &str) -> (uri: String)
    ensures
        uri@ == svg_data_uri(base64_standard(text_svg(title@))),
{
    let escaped_title = escape_xml(title);
    let mut s = String::new();
    s.append("<svg xmlns=\"http://www.w3.org/2000/svg\" width=\"144\" height=\"144\" viewBox=\"0 0 144 144\">\n  <rect width=\"144\" height=\"144\" fill=\"#1a1a1a\"/>\n  <text x=\"72\" y=\"72\" text-anchor=\"middle\" dominant-baseline=\"middle\" font-family=\"Arial, sans-serif\" font-size=\"36\" font-weight=\"bold\" fill=\"#fff\">");
    s.append(escaped_title.as_str());
    s.append("</text>\n</svg>");
    proof {
        assert(s@ =~= text_svg(title@));
    }
    let mut uri = String::from_str("data:image/svg+xml;base64,");
    let encoded = base64_encode(s.as_str());
    uri.append(encoded.as_str());
    uri
}

// ============================================================================
// Laws
// ============================================================================

/// Escaped text holds no markup character: no `<`, `>`, `"` or `'`.
pub proof fn escaped_has_no_markup(s: Seq<char>)
    ensures
        forall|i: int|
            0 <= i < escaped(s).len() ==> #[trigger] escaped(s)[i] != '<' && escaped(s)[i] != '>'
                && escaped(s)[i] != '"' && escaped(s)[i] != '\'',
    decreases s.len(),
{
    if s.len() > 0 {
        escaped_has_no_markup(s.drop_last());
        let prev = escaped(s.drop_last());
        let tail = escape_char(s.last());
        reveal_strlit("&amp;");
        reveal_strlit("&lt;");
        reveal_strlit("&gt;");
        reveal_strlit("&quot;");
        reveal_strlit("&apos;");
        assert forall|i: int| 0 <= i < tail.len() implies #[trigger] tail[i] != '<' && tail[i] != '>'
            && tail[i] != '"' && tail[i] != '\'' by {}
        assert forall|i: int| 0 <= i < escaped(s).len() implies #[trigger] escaped(s)[i] != '<'
            && escaped(s)[i] != '>' && escaped(s)[i] != '"' && escaped(s)[i] != '\'' by {
            if i < prev.len() {
                assert(escaped(s)[i] == prev[i]);
            } else {
                assert(escaped(s)[i] == tail[i - prev.len()]);
            }
        }
    }
}

/// The bar stays on the button, grows with the battery, fills the button at
/// 100% and up, and sits on the bottom edge.
pub proof fn battery_bar_geometry(p: u8, q: u8)
    ensures
        0 <= bar_height(p) <= 144,
        p <= q ==> bar_height(p) <= bar_height(q),
        p >= 100 ==> bar_height(p) == 144,
        bar_top(p) + bar_height(p) == 144,
{
    let a = shown_percentage(p);
    let b = shown_percentage(q);
    assert(0 <= a * 144 / 100 <= 144) by (nonlinear_arith)
        requires
            0 <= a <= 100,
    ;
    if p <= q {
        assert(a * 144 / 100 <= b * 144 / 100) by (nonlinear_arith)
            requires
                0 <= a <= b,
        ;
    }
}

/// A character that escaping replaces.
pub open spec fn is_markup_char(c: char) -> bool {
    c == '&' || c == '<' || c == '>' || c == '"' || c == '\''
}

/// Escaping works character by character: the escape of two texts joined is
/// the two escapes joined; a text without `&`, `<`, `>`, `"` or `'` is left
/// as it is; and each of those five becomes its XML entity.
pub proof fn escape_law(s: Seq<char>, t: Seq<char>)
    ensures
        escaped(s + t) == escaped(s) + escaped(t),
        (forall|i: int| 0 <= i < s.len() ==> !is_markup_char(#[trigger] s[i])) ==> escaped(s) == s,
        escaped(seq!['&']) == "&amp;"@,
        escaped(seq!['<']) == "&lt;"@,
        escaped(seq!['>']) == "&gt;"@,
        escaped(seq!['"']) == "&quot;"@,
        escaped(seq!['\'']) == "&apos;"@,
    decreases s.len() + t.len(),
{
    if t.len() > 0 {
        escape_law(s, t.drop_last());
        assert((s + t).drop_last() =~= s + t.drop_last());
        assert((s + t).last() == t.last());
    } else {
        assert(s + t =~= s);
        assert(escaped(t) =~= Seq::<char>::empty());
        assert(escaped(s) + escaped(t) =~= escaped(s));
    }
    if forall|i: int| 0 <= i < s.len() ==> !is_markup_char(#[trigger] s[i]) {
        if s.len() > 0 {
            escape_law(s.drop_last(), Seq::empty());
            assert(!is_markup_char(s[s.len() - 1]));
            assert forall|i: int| 0 <= i < s.drop_last().len() implies !is_markup_char(
                #[trigger] s.drop_last()[i],
            ) by {
                assert(s.drop_last()[i] == s[i]);
            }
            assert(escaped(s.drop_last()) == s.drop_last());
            assert(s.drop_last() + seq![s.last()] =~= s);
        }
    }
    assert(escaped(Seq::<char>::empty()) == Seq::<char>::empty());
    assert(seq!['&'].drop_last() =~= Seq::<char>::empty());
    assert(seq!['&'].last() == '&');
    assert(seq!['<'].last() == '<');
    assert(seq!['>'].last() == '>');
    assert(seq!['"'].last() == '"');
    assert(seq!['\''].last() == '\'');
    assert(seq!['<'].drop_last() =~= Seq::<char>::empty());
    assert(seq!['>'].drop_last() =~= Seq::<char>::empty());
    assert(seq!['"'].drop_last() =~= Seq::<char>::empty());
    assert(seq!['\''].drop_last() =~= Seq::<char>::empty());
    assert(Seq::<char>::empty() + "&amp;"@ =~= "&amp;"@);
    assert(Seq::<char>::empty() + "&lt;"@ =~= "&lt;"@);
    assert(Seq::<char>::empty() + "&gt;"@ =~= "&gt;"@);
    assert(Seq::<char>::empty() + "&quot;"@ =~= "&quot;"@);
    assert(Seq::<char>::empty() + "&apos;"@ =~= "&apos;"@);
}

/// The bar colours: light blue while charging; otherwise green above 50%,
/// amber from 21% to 50%, red at 20% and below.
pub proof fn bar_colors_law(p: u8, charging: bool)
    ensures
        charging ==> bar_color(p, charging) == "#4FC3F7" && bar_color_light(p, charging)
            == "#81D4FA",
        !charging && p > 50 ==> bar_color(p, charging) == "#4CAF50" && bar_color_light(p, charging)
            == "#81C784",
        !charging && 20 < p <= 50 ==> bar_color(p, charging) == "#FFC107" && bar_color_light(
            p,
            charging,
        ) == "#FFD54F",
        !charging && p <= 20 ==> bar_color(p, charging) == "#F44336" && bar_color_light(p, charging)
            == "#E57373",
{
}

} // verus!
