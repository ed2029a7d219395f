use vstd::prelude::*;
use vstd::string::*;
use crate::digits::{nat_digits, push_nat};

verus! {

/// The shape of the slider's thumb.
#[derive(Clone, PartialEq, Default, Debug)]
pub enum Cursor {
    #[default]
    Round,
    Square,
    /// A complete style of the caller's own, used as it stands.
    Custom(&'static str),
}

/// The colour that a thumb takes when the slider is disabled.
pub open spec fn disabled_color() -> Seq<char> {
    "#aaa"@
}

/// The thumb style of `cursor`, before the shared pointer and transition rules.
pub open spec fn cursor_base_style(cursor: Cursor, base_color: Seq<char>) -> Seq<char> {
    match cursor {
        Cursor::Round => "width: 16px; height: 16px; background: "@ + base_color
            + "; border-radius: 50%;"@,
        Cursor::Square => "width: 16px; height: 16px; background: "@ + base_color
            + "; border-radius: 0;"@,
        Cursor::Custom(s) => s@,
    }
}

/// The full thumb style: grey when disabled, else the colour's code.
pub open spec fn cursor_style(cursor: Cursor, disabled: bool, color: Color) -> Seq<char> {
    let base_color = if disabled {
        disabled_color()
    } else {
        color_code(color)
    };
    cursor_base_style(cursor, base_color) + " cursor: pointer; transition: background 0.3s;"@
}

impl Cursor {
    pub fn to_style(&self, disabled: bool, color: &Color) -> (r: String)
        ensures
            r@ == cursor_style(*self, disabled, *color),
    {
        let base_color: &str = if disabled {
            "#aaa"
        } else {
            color.to_color_code()
        };
        let mut s = String::new();
        match self {
            Cursor::Round => {
                s.append("width: 16px; height: 16px; background: ");
                s.append(base_color);
                s.append("; border-radius: 50%;");
            },
            Cursor::Square => {
                s.append("width: 16px; height: 16px; background: ");
                s.append(base_color);
                s.append("; border-radius: 0;");
            },
            Cursor::Custom(c) => {
                s.append(c);
            },
        }
        s.append(" cursor: pointer; transition: background 0.3s;");
        proof {
            assert(s@ =~= cursor_style(*self, disabled, *color));
        }
        s
    }
}

/// A preset size of the track.
#[derive(Clone, PartialEq, Default, Debug)]
pub enum Size {
    #[default]
    /// No size rule: the track keeps its natural size.
    Auto,
    Md,
    Sm,
    Lg,
    /// A style of the caller's own, used as it stands.
    Custom(&'static str),
}

/// The style of a size preset.
pub open spec fn size_style(size: Size) -> Seq<char> {
    match size {
        Size::Auto => ""@,
        Size::Sm => "height: 10px; width: 120px;"@,
        Size::Md => "height: 20px; width: 220px;"@,
        Size::Lg => "height: 35px; width: 320px;"@,
        Size::Custom(s) => s@,
    }
}

impl Size {
    pub fn to_style(&self) -> (r: &'static str)
        ensures
            r@ == size_style(*self),
    {
        match self {
            Size::Auto => "",
            Size::Sm => "height: 10px; width: 120px;",
            Size::Md => "height: 20px; width: 220px;",
            Size::Lg => "height: 35px; width: 320px;",
            Size::Custom(s) => s,
        }
    }
}

/// The fill colour of the track and the thumb.
#[derive(Clone, PartialEq, Default, Debug)]
pub enum Color {
    #[default]
    Primary,
    Secondary,
    Success,
    Warning,
    Danger,
    Info,
    Light,
    Dark,
    Muted,
    White,
    /// A CSS colour of the caller's own, used as it stands.
    Custom(&'static str),
}

/// The CSS colour code of a colour.
pub open spec fn color_code(color: Color) -> Seq<char> {
    match color {
        Color::Primary => "#0d6efd"@,
        Color::Secondary => "#6c757d"@,
        Color::Success => "#198754"@,
        Color::Warning => "#ffc107"@,
        Color::Danger => "#dc3545"@,
        Color::Info => "#0dcaf0"@,
        Color::Light => "#f8f9fa"@,
        Color::Dark => "#212529"@,
        Color::Muted => "#6c757d"@,
        Color::White => "#ffffff"@,
        Color::Custom(s) => s@,
    }
}

impl Color {
    pub fn to_color_code(&self) -> (r: &'static str)
        ensures
            r@ == color_code(*self),
    {
        match self {
            Color::Primary => "#0d6efd",
            Color::Secondary => "#6c757d",
            Color::Success => "#198754",
            Color::Warning => "#ffc107",
            Color::Danger => "#dc3545",
            Color::Info => "#0dcaf0",
            Color::Light => "#f8f9fa",
            Color::Dark => "#212529",
            Color::Muted => "#6c757d",
            Color::White => "#ffffff",
            Color::Custom(s) => s,
        }
    }
}

/// The direction in which the track runs.
#[derive(Clone, PartialEq, Default, Debug)]
pub enum Orientation {
    #[default]
    Horizontal,
    Vertical,
}

impl Orientation {
    pub fn is_vertical(&self) -> (r: bool)
        ensures
            r == (*self is Vertical),
    {
        match self {
            Orientation::Vertical => true,
            Orientation::Horizontal => false,
        }
    }

    pub fn to_style(&self) -> (r: &'static str)
        ensures
            r@ == (if *self is Vertical {
                "writing-mode: vertical-lr;"@
            } else {
                ""@
            }),
    {
        if self.is_vertical() {
            "writing-mode: vertical-lr;"
        } else {
            ""
        }
    }

    pub fn to_orient(&self) -> (r: Option<&'static str>)
        ensures
            *self is Vertical ==> r is Some && r->0@ == "vertical"@,
            *self is Horizontal ==> r is None,
    {
        if self.is_vertical() {
            Some("vertical")
        } else {
            None
        }
    }
}

/// The width of the track.
#[derive(Clone, PartialEq, Default, Debug)]
pub enum Width {
    #[default]
    Auto,
    Px(u32),
    Percent(u8),
    /// A CSS length of the caller's own.
    Custom(&'static str),
}

/// The style of a track width.
pub open spec fn width_style(width: Width) -> Seq<char> {
    match width {
        Width::Auto => "width: auto;"@,
        Width::Px(p) => "width: "@ + nat_digits(p as nat) + "px;"@,
        Width::Percent(p) => "width: "@ + nat_digits(p as nat) + "%;"@,
        Width::Custom(s) => "width: "@ + s@ + ";"@,
    }
}

impl Width {
    pub fn to_style(&self) -> (r: String)
        ensures
            r@ == width_style(*self),
    {
        let mut s = String::new();
        match self {
            Width::Auto => {
                s.append("width: auto;");
            },
            Width::Px(p) => {
                s.append("width: ");
                push_nat(&mut s, *p as u64);
                s.append("px;");
            },
            Width::Percent(p) => {
                s.append("width: ");
                push_nat(&mut s, *p as u64);
                s.append("%;");
            },
            Width::Custom(c) => {
                s.append("width: ");
                s.append(c);
                s.append(";");
            },
        }
        proof {
            assert(s@ =~= width_style(*self));
        }
        s
    }
}

/// The height of the track.
#[derive(Clone, PartialEq, Default, Debug)]
pub enum Height {
    #[default]
    Auto,
    Px(u32),
    /// A CSS length of the caller's own.
    Custom(&'static str),
}

/// The style of a track height.
pub open spec fn height_style(height: Height) -> Seq<char> {
    match height {
        Height::Auto => "height: auto;"@,
        Height::Px(p) => "height: "@ + nat_digits(p as nat) + "px;"@,
        Height::Custom(s) => "height: "@ + s@ + ";"@,
    }
}

impl Height {
    pub fn to_style(&self) -> (r: String)
        ensures
            r@ == height_style(*self),
    {
        let mut s = String::new();
        match self {
            Height::Auto => {
                s.append("height: auto;");
            },
            Height::Px(p) => {
                s.append("height: ");
                push_nat(&mut s, *p as u64);
                s.append("px;");
            },
            Height::Custom(c) => {
                s.append("height: ");
                s.append(c);
                s.append(";");
            },
        }
        proof {
            assert(s@ =~= height_style(*self));
        }
        s
    }
}

} // verus!
