use slider_rs::decimal::Decimal;
use slider_rs::props::{LabelProps, OutputProps};
use slider_rs::model::fill_percent;
use slider_rs::style::{
    datalist_id, handle_styles, input_style, new_datalist_id, step_label_style, steps_container_style,
    track_background, with_thumb_css,
};
use slider_rs::{Color, Cursor, Height, Orientation, Size, Width};

#[test]
fn cursor_styles() {
    assert_eq!(
        Cursor::Round.to_style(false, &Color::Primary),
        "width: 16px; height: 16px; background: #0d6efd; border-radius: 50%; cursor: pointer; transition: background 0.3s;"
    );
    assert_eq!(
        Cursor::Square.to_style(true, &Color::Primary),
        "width: 16px; height: 16px; background: #aaa; border-radius: 0; cursor: pointer; transition: background 0.3s;"
    );
    assert_eq!(
        Cursor::Custom("color: red;").to_style(false, &Color::Danger),
        "color: red; cursor: pointer; transition: background 0.3s;"
    );
}

#[test]
fn size_styles() {
    assert_eq!(Size::Auto.to_style(), "");
    assert_eq!(Size::Sm.to_style(), "height: 10px; width: 120px;");
    assert_eq!(Size::Md.to_style(), "height: 20px; width: 220px;");
    assert_eq!(Size::Lg.to_style(), "height: 35px; width: 320px;");
    assert_eq!(Size::Custom("height: 1px;").to_style(), "height: 1px;");
}

#[test]
fn color_codes() {
    assert_eq!(Color::Primary.to_color_code(), "#0d6efd");
    assert_eq!(Color::Secondary.to_color_code(), "#6c757d");
    assert_eq!(Color::Success.to_color_code(), "#198754");
    assert_eq!(Color::Warning.to_color_code(), "#ffc107");
    assert_eq!(Color::Danger.to_color_code(), "#dc3545");
    assert_eq!(Color::Info.to_color_code(), "#0dcaf0");
    assert_eq!(Color::Light.to_color_code(), "#f8f9fa");
    assert_eq!(Color::Dark.to_color_code(), "#212529");
    assert_eq!(Color::Muted.to_color_code(), "#6c757d");
    assert_eq!(Color::White.to_color_code(), "#ffffff");
    assert_eq!(Color::Custom("teal").to_color_code(), "teal");
}

#[test]
fn orientation_styles() {
    assert!(Orientation::Vertical.is_vertical());
    assert!(!Orientation::Horizontal.is_vertical());
    assert_eq!(Orientation::Vertical.to_style(), "writing-mode: vertical-lr;");
    assert_eq!(Orientation::Horizontal.to_style(), "");
    assert_eq!(Orientation::Vertical.to_orient(), Some("vertical"));
    assert_eq!(Orientation::Horizontal.to_orient(), None);
}

#[test]
fn width_and_height_styles() {
    assert_eq!(Width::Auto.to_style(), "width: auto;");
    assert_eq!(Width::Px(320).to_style(), "width: 320px;");
    assert_eq!(Width::Px(0).to_style(), "width: 0px;");
    assert_eq!(Width::Px(u32::MAX).to_style(), "width: 4294967295px;");
    assert_eq!(Width::Percent(75).to_style(), "width: 75%;");
    assert_eq!(Width::Custom("10em").to_style(), "width: 10em;");
    assert_eq!(Height::Auto.to_style(), "height: auto;");
    assert_eq!(Height::Px(48).to_style(), "height: 48px;");
    assert_eq!(Height::Custom("2rem").to_style(), "height: 2rem;");
}

#[test]
fn track_background_gradients() {
    let p = Decimal::from_units(25_500_000);
    assert_eq!(
        track_background(&Color::Primary, true, &Orientation::Horizontal, false, p),
        "background: linear-gradient(to right, #0d6efd 0%, #0d6efd 25.50%, #ccc 25.50%, #ccc 100%);"
    );
    assert_eq!(
        track_background(&Color::Dark, true, &Orientation::Vertical, true, Decimal::from_int(10)),
        "background: linear-gradient(to top, #212529 0%, #212529 10.00%, #ccc 10.00%, #ccc 100%);"
    );
    assert_eq!(
        track_background(&Color::Info, false, &Orientation::Horizontal, false, p),
        "background: #0dcaf0;"
    );
}

#[test]
fn input_style_assembles_parts() {
    let s = input_style("outline: none;", &Width::Px(200), &Height::Auto, "background: red;", &Orientation::Vertical, &Size::Sm);
    assert_eq!(
        s,
        "cursor: pointer; transition: background 0.3s; outline: none; width: 200px; height: auto; background: red; writing-mode: vertical-lr; height: 10px; width: 120px;"
    );
}

#[test]
fn handle_styles_stack_two_inputs() {
    let (a, b) = handle_styles("outline: none", true);
    assert_eq!(a, "outline: none; position: absolute; width: 100%; top: 0; left: 0; z-index: 3;");
    assert_eq!(b, "outline: none; position: absolute; width: 100%; top: 0; left: 0; z-index: 2;");
    let (a, b) = handle_styles("outline: none", false);
    assert_eq!(a, "outline: none");
    assert_eq!(b, "outline: none");
}

#[test]
fn datalist_ids() {
    assert_eq!(datalist_id("abc"), "slider-list-abc");
    let id = new_datalist_id();
    assert_eq!(id.len(), 48);
    assert!(id.starts_with("slider-list-"));
    let suffix = &id[12..];
    assert_eq!(suffix.as_bytes()[14], b'4');
    assert_eq!(suffix.matches('-').count(), 4);
    assert_ne!(new_datalist_id(), id);
}

#[test]
fn label_and_output_props() {
    let label = LabelProps::default();
    assert_eq!(label.label, "");
    assert_eq!(label.label_class, "slider-label");
    assert_eq!(label.label_style, "font-size: 14px; margin-bottom: 8px; text-align: center;");
    let out = OutputProps::for_value(Decimal::from_units(3_500_000), Decimal::from_int(35), true);
    assert_eq!(out.value_display, "3.5");
    assert_eq!(out.tooltip_left, "35.00%");
    assert!(out.show_tooltip);
    assert_eq!(out.output_class, "slider-output");
    assert!(out.tooltip_css().ends_with(" left: 35.00%;"));
    let whole = OutputProps::for_value(Decimal::from_int(5), Decimal::from_units(12_345_000), false);
    assert_eq!(whole.value_display, "5.0");
    assert_eq!(whole.tooltip_left, "12.34%");
    assert!(out.tooltip_css().starts_with("background-color: #333;"));
    assert!(!OutputProps::default().show_tooltip);
}

#[test]
fn gradient_from_fill_percent_uses_two_decimals() {
    let zero = Decimal::from_int(0);
    let hundred = Decimal::from_int(100);
    for (value, shown) in [(25, "25.00"), (0, "0.00"), (100, "100.00")] {
        let p = fill_percent(Decimal::from_int(value), zero, hundred).unwrap();
        let style = track_background(&Color::Primary, true, &Orientation::Horizontal, false, p);
        assert_eq!(
            style,
            format!("background: linear-gradient(to right, #0d6efd 0%, #0d6efd {shown}%, #ccc {shown}%, #ccc 100%);")
        );
    }
    let p = fill_percent(Decimal::from_int(1), zero, Decimal::from_int(3)).unwrap();
    assert_eq!(
        track_background(&Color::Primary, true, &Orientation::Horizontal, true, p),
        "background: linear-gradient(to left, #0d6efd 0%, #0d6efd 33.33%, #ccc 33.33%, #ccc 100%);"
    );
    assert_eq!(
        track_background(&Color::Primary, true, &Orientation::Vertical, false, p),
        "background: linear-gradient(to bottom, #0d6efd 0%, #0d6efd 33.33%, #ccc 33.33%, #ccc 100%);"
    );
}

#[test]
fn thumb_css_follows_input_style() {
    assert_eq!(with_thumb_css("a: b;", Some("c: d;")), "a: b; c: d;");
    assert_eq!(with_thumb_css("a: b;", None), "a: b; ");
}

#[test]
fn step_styles_follow_orientation() {
    assert_eq!(
        step_label_style(&Orientation::Vertical),
        "margin: 4px 0; writing-mode: vertical-rl; text-align: center;"
    );
    assert_eq!(step_label_style(&Orientation::Horizontal), "text-align: center;");
    assert_eq!(
        steps_container_style(&Orientation::Vertical, "x: y;"),
        "display: flex; flex-direction: column; align-items: center; height: 100%; font-size: 10px;"
    );
    assert_eq!(steps_container_style(&Orientation::Horizontal, "x: y;"), "x: y;");
}
