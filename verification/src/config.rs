//! The user's settings for the container segment.

use crate::segment::StyleValue;
use vstd::prelude::*;

verus! {

/// The settings of the container segment, as read from the configuration
/// before detection starts.
#[derive(Debug, PartialEq, Eq)]
pub struct ContainerConfig {
    /// Switches the segment off.
    pub disabled: bool,
    /// The template that the segment is rendered from (the key `format`).
    pub template: String,
    /// What `${symbol}` stands for in the template.
    pub symbol: String,
    /// What `$style` stands for behind a group of the template.
    pub style: StyleValue,
    /// Shows the container's name in place of its image's.
    pub use_container_name: bool,
}

/// A [`ContainerConfig`] as the contracts see it.
pub struct ConfigView {
    pub disabled: bool,
    pub template: Seq<char>,
    pub symbol: Seq<char>,
    pub style: Seq<char>,
    pub use_container_name: bool,
}

impl ConfigView {
    /// The settings of a user who has set none: the symbol and the name in
    /// square brackets, both bold and dimmed in red, then a space.
    pub open spec fn standard() -> ConfigView {
        ConfigView {
            disabled: false,
            template: "[${symbol} \\[$name\\]]($style) "@,
            symbol: "⬢"@,
            style: "red bold dimmed"@,
            use_container_name: false,
        }
    }
}

impl View for ContainerConfig {
    type V = ConfigView;

    open spec fn view(&self) -> ConfigView {
        ConfigView {
            disabled: self.disabled,
            template: self.template@,
            symbol: self.symbol@,
            style: self.style@,
            use_container_name: self.use_container_name,
        }
    }
}

impl Default for ContainerConfig {
    fn default() -> (config: Self)
        ensures
            config@ == ConfigView::standard(),
    {
        ContainerConfig {
            disabled: false,
            template: "[${symbol} \\[$name\\]]($style) ".to_owned(),
            symbol: "⬢".to_owned(),
            style: StyleValue::new("red bold dimmed"),
            use_container_name: false,
        }
    }
}

} // verus!
