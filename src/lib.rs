//! A slider (range input) model: the styling vocabulary of the widget, a
//! fixed-point decimal type for handle positions, and the value model that
//! turns raw input events into committed handle values and notifications.

pub mod digits;

pub mod decimal;

pub mod model;

pub mod props;

pub mod style;

pub mod common;

pub use common::{Color, Cursor, Height, Orientation, Size, Width};
pub use decimal::{Decimal, ParseError};
pub use model::{
    apply_keyboard_step, fill_percent, keyboard_value, ConfigError, Direction, Notification,
    SliderConfig, SliderState,
};
pub use props::{LabelProps, OutputProps};
