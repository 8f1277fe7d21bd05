//! Argument parsing, command planning and dispatch policy for an LED pixel-matrix display.
pub mod types;
pub mod text;
pub mod arg_parser;
pub mod hue;
pub mod plan;
pub mod dispatch;

pub use types::{IDMClockMode, IDMColor, IDMCommand, IDMPixel};
pub use arg_parser::{parse_clock_mode_string, parse_color_string, parse_pixel_string, ParseError};
pub use hue::{HuePixel, HueSweep};
pub use plan::{plan_commands, PlanError, Request};
pub use dispatch::{Dispatch, SendOutcome, Step};
pub use text::{chars_of, split_fields};
