use vstd::prelude::*;
use vstd::string::*;
use crate::common::{
    color_code, height_style, size_style, width_style, Color, Height, Orientation, Size, Width,
};
use crate::decimal::{fixed_text, Decimal};

verus! {

/// Which edge of the track the fill grows from, as a gradient direction.
pub open spec fn gradient_direction(vertical: bool, rtl_fill: bool) -> Seq<char> {
    if vertical {
        if rtl_fill {
            "top"@
        } else {
            "bottom"@
        }
    } else if rtl_fill {
        "left"@
    } else {
        "right"@
    }
}

/// The background of the track: a gradient that fills `percent` percent
/// of it in the colour and leaves the rest grey, the percent written with
/// two decimals; or the plain colour.
pub open spec fn background_style(
    color: Color,
    use_gradient: bool,
    orientation: Orientation,
    rtl_fill: bool,
    percent: int,
) -> Seq<char> {
    let c = color_code(color);
    if use_gradient {
        let p = fixed_text(percent, 2);
        "background: linear-gradient(to "@ + gradient_direction(orientation is Vertical, rtl_fill)
            + ", "@ + c + " 0%, "@ + c + " "@ + p + "%, #ccc "@ + p + "%, #ccc 100%);"@
    } else {
        "background: "@ + c + ";"@
    }
}

/// The background of the track for a fill of `percent` percent.
pub fn track_background(
    color: &Color,
    use_gradient: bool,
    orientation: &Orientation,
    rtl_fill: bool,
    percent: Decimal,
) -> (r: String)
    ensures
        r@ == background_style(*color, use_gradient, *orientation, rtl_fill, percent@),
{
    let c = color.to_color_code();
    let mut s = String::new();
    if use_gradient {
        let p = percent.to_fixed(2);
        let direction = if orientation.is_vertical() {
            if rtl_fill {
                "top"
            } else {
                "bottom"
            }
        } else if rtl_fill {
            "left"
        } else {
            "right"
        };
        s.append("background: linear-gradient(to ");
        s.append(direction);
        s.append(", ");
        s.append(c);
        s.append(" 0%, ");
        s.append(c);
        s.append(" ");
        s.append(p.as_str());
        s.append("%, #ccc ");
        s.append(p.as_str());
        s.append("%, #ccc 100%);");
    } else {
        s.append("background: ");
        s.append(c);
        s.append(";");
    }
    assert(s@ =~= background_style(*color, use_gradient, *orientation, rtl_fill, percent@));
    s
}

/// The inline style of a range input: pointer and transition rules, then
/// the caller's style, the width, the height, the background, the
/// orientation and the size, each followed by a space but the last.
pub open spec fn input_style_text(
    base: Seq<char>,
    width: Width,
    height: Height,
    background: Seq<char>,
    orientation: Orientation,
    size: Size,
) -> Seq<char> {
    let o = if orientation is Vertical {
        "writing-mode: vertical-lr;"@
    } else {
        ""@
    };
    "cursor: pointer; transition: background 0.3s; "@ + base + " "@ + width_style(width) + " "@
        + height_style(height) + " "@ + background + " "@ + o + " "@ + size_style(size)
}

/// The inline style of a range input.
pub fn input_style(
    base: &str,
    width: &Width,
    height: &Height,
    background: &str,
    orientation: &Orientation,
    size: &Size,
) -> (r: String)
    ensures
        r@ == input_style_text(base@, *width, *height, background@, *orientation, *size),
{
    let mut s = String::new();
    s.append("cursor: pointer; transition: background 0.3s; ");
    s.append(base);
    s.append(" ");
    let w = width.to_style();
    s.append(w.as_str());
    s.append(" ");
    let h = height.to_style();
    s.append(h.as_str());
    s.append(" ");
    s.append(background);
    s.append(" ");
    s.append(orientation.to_style());
    s.append(" ");
    s.append(size.to_style());
    assert(s@ =~= input_style_text(base@, *width, *height, background@, *orientation, *size));
    s
}

/// The style of a range input followed by a space and the caller's own
/// thumb CSS, or by a space alone when there is none.
pub fn with_thumb_css(base: &str, custom_thumb_css: Option<&str>) -> (r: String)
    ensures
        r@ == base@ + " "@ + (match custom_thumb_css {
            Some(css) => css@,
            None => Seq::<char>::empty(),
        }),
{
    let mut s = String::from_str(base);
    s.append(" ");
    match custom_thumb_css {
        Some(css) => {
            s.append(css);
        },
        None => {},
    }
    proof {
        reveal_strlit(" ");
    }
    assert(s@ =~= base@ + " "@ + (match custom_thumb_css {
        Some(css) => css@,
        None => Seq::<char>::empty(),
    }));
    s
}

/// The style of one step label: stacked sideways on a vertical slider.
pub fn step_label_style(orientation: &Orientation) -> (r: &'static str)
    ensures
        r@ == (if *orientation is Vertical {
            "margin: 4px 0; writing-mode: vertical-rl; text-align: center;"@
        } else {
            "text-align: center;"@
        }),
{
    if orientation.is_vertical() {
        "margin: 4px 0; writing-mode: vertical-rl; text-align: center;"
    } else {
        "text-align: center;"
    }
}

/// The style of the row of step labels: a fixed column on a vertical
/// slider, else the caller's style.
pub fn steps_container_style(orientation: &Orientation, steps_style: &'static str) -> (r:
    &'static str)
    ensures
        r@ == (if *orientation is Vertical {
            "display: flex; flex-direction: column; align-items: center; height: 100%; font-size: 10px;"@
        } else {
            steps_style@
        }),
{
    if orientation.is_vertical() {
        "display: flex; flex-direction: column; align-items: center; height: 100%; font-size: 10px;"
    } else {
        steps_style
    }
}

/// The styles of the two stacked inputs of a two-handle slider: both laid
/// over the track, the first above the second. A one-handle slider keeps
/// the caller's style.
pub open spec fn handle_style_texts(base: Seq<char>, double: bool) -> (Seq<char>, Seq<char>) {
    if double {
        (
            base + "; position: absolute; width: 100%; top: 0; left: 0; z-index: 3;"@,
            base + "; position: absolute; width: 100%; top: 0; left: 0; z-index: 2;"@,
        )
    } else {
        (base, base)
    }
}

/// The styles of the first and the second input.
pub fn handle_styles(base: &str, double: bool) -> (r: (String, String))
    ensures
        r.0@ == handle_style_texts(base@, double).0,
        r.1@ == handle_style_texts(base@, double).1,
{
    let mut first = String::from_str(base);
    let mut second = String::from_str(base);
    if double {
        first.append("; position: absolute; width: 100%; top: 0; left: 0; z-index: 3;");
        second.append("; position: absolute; width: 100%; top: 0; left: 0; z-index: 2;");
    }
    (first, second)
}

/// Whether `c` is a lower-case hexadecimal digit.
pub open spec fn is_lower_hex(c: char) -> bool {
    ('0' <= c && c <= '9') || ('a' <= c && c <= 'f')
}

/// Whether `s` is a random (version 4) UUID in hyphenated lower-case form.
pub open spec fn is_hyphenated_v4(s: Seq<char>) -> bool {
    &&& s.len() == 36
    &&& forall|i: int|
        0 <= i < 36 ==> if i == 8 || i == 13 || i == 18 || i == 23 {
            #[trigger] s[i] == '-'
        } else {
            is_lower_hex(s[i])
        }
    &&& s[14] == '4'
}

/// Relies on `uuid::Uuid::new_v4` and the `Display` impl of `uuid::Uuid`:
/// a random UUID of version 4, written in hyphenated lower-case form.
#[verifier::external_body]
fn random_uuid_text() -> (r: String)
    ensures
        is_hyphenated_v4(r@),
{
    uuid::Uuid::new_v4().to_string()
}

/// The id that links a slider's inputs to its tick list, for a given suffix.
pub fn datalist_id(suffix: &str) -> (r: String)
    ensures
        r@ == "slider-list-"@ + suffix@,
{
    let mut s = String::from_str("slider-list-");
    s.append(suffix);
    s
}

/// A fresh id for a slider's tick list: the list prefix, then a random UUID.
pub fn new_datalist_id() -> (r: String)
    ensures
        r@.len() == 48,
        r@.take(12) == "slider-list-"@,
        is_hyphenated_v4(r@.skip(12)),
{
    let suffix = random_uuid_text();
    let r = datalist_id(suffix.as_str());
    proof {
        reveal_strlit("slider-list-");
        assert(r@.take(12) =~= "slider-list-"@);
        assert(r@.skip(12) =~= suffix@);
    }
    r
}

} // verus!
