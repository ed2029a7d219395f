use vstd::prelude::*;
use vstd::string::*;
use crate::decimal::{fixed_text, Decimal};

verus! {

/// The text and look of a slider's label.
pub struct LabelProps {
    pub label: &'static str,
    pub label_style: &'static str,
    pub label_class: &'static str,
}

impl Default for LabelProps {
    fn default() -> (r: LabelProps)
        ensures
            r.label@ == ""@,
            r.label_style@ == "font-size: 14px; margin-bottom: 8px; text-align: center;"@,
            r.label_class@ == "slider-label"@,
    {
        LabelProps {
            label: "",
            label_style: "font-size: 14px; margin-bottom: 8px; text-align: center;",
            label_class: "slider-label",
        }
    }
}

/// The readout of a slider's value, and the tooltip that may follow the thumb.
pub struct OutputProps {
    pub value_display: String,
    pub output_style: &'static str,
    pub output_class: &'static str,
    pub tooltip_style: &'static str,
    pub show_tooltip: bool,
    pub tooltip_left: String,
}

/// The default style of the readout.
pub open spec fn default_output_style() -> Seq<char> {
    "font-size: 12px; margin-top: 8px; text-align: center;"@
}

/// The default class of the readout.
pub open spec fn default_output_class() -> Seq<char> {
    "slider-output"@
}

/// The default style of the tooltip.
pub open spec fn default_tooltip_style() -> Seq<char> {
    "background-color: #333; color: #fff; padding: 4px 8px; border-radius: 4px; font-size: 12px; position: absolute; transform: translate(-50%, -120%); display: block; pointer-events: none;"@
}

impl Default for OutputProps {
    fn default() -> (r: OutputProps)
        ensures
            r.value_display@ == Seq::<char>::empty(),
            r.output_style@ == default_output_style(),
            r.output_class@ == default_output_class(),
            r.tooltip_style@ == default_tooltip_style(),
            !r.show_tooltip,
            r.tooltip_left@ == Seq::<char>::empty(),
    {
        OutputProps {
            value_display: String::new(),
            output_style: "font-size: 12px; margin-top: 8px; text-align: center;",
            output_class: "slider-output",
            tooltip_style: "background-color: #333; color: #fff; padding: 4px 8px; border-radius: 4px; font-size: 12px; position: absolute; transform: translate(-50%, -120%); display: block; pointer-events: none;",
            show_tooltip: false,
            tooltip_left: String::new(),
        }
    }
}

impl OutputProps {
    /// The readout of `value` with one decimal, with the tooltip placed
    /// `percent` percent along the track, written with two decimals; the
    /// styles and class are the defaults.
    pub fn for_value(value: Decimal, percent: Decimal, show_tooltip: bool) -> (r: OutputProps)
        ensures
            r.value_display@ == fixed_text(value@, 1),
            r.tooltip_left@ == fixed_text(percent@, 2) + "%"@,
            r.show_tooltip == show_tooltip,
            r.output_style@ == default_output_style(),
            r.output_class@ == default_output_class(),
            r.tooltip_style@ == default_tooltip_style(),
    {
        let mut left = percent.to_fixed(2);
        left.append("%");
        let mut r = OutputProps::default();
        r.value_display = value.to_fixed(1);
        r.tooltip_left = left;
        r.show_tooltip = show_tooltip;
        r
    }

    /// The style of the tooltip: its own style, then its place along the track.
    pub fn tooltip_css(&self) -> (r: String)
        ensures
            r@ == self.tooltip_style@ + " left: "@ + self.tooltip_left@ + ";"@,
    {
        let mut s = String::from_str(self.tooltip_style);
        s.append(" left: ");
        s.append(self.tooltip_left.as_str());
        s.append(";");
        s
    }
}

} // verus!
