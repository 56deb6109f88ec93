//! Framework-independent colour-picker building blocks: the colour model,
//! hex parsing and formatting, picker configuration, and the decisions of the
//! picker popup and of the colour-field control, each with a machine-checked
//! contract.

pub mod color;
pub mod dialog;
pub mod field;
pub mod message;
pub mod popup;
pub mod render;
pub mod style;
pub mod text;

pub use color::{Color, ParseColorError};
pub use dialog::{ColorPicker, PickerError, PickerEvent};
pub use style::{PickerChrome, PickerFont, PickerLabels, PickerTheme};
