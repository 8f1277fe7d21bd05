use vstd::prelude::*;

verus! {

/// A color with three 8-bit channels.
#[derive(Clone, Copy, Debug, PartialEq, Eq, Structural)]
pub struct IDMColor {
    pub r: u8,
    pub g: u8,
    pub b: u8,
}

/// One cell of the display and the color to paint it.
#[derive(Clone, Copy, Debug, PartialEq, Eq, Structural)]
pub struct IDMPixel {
    pub x: u8,
    pub y: u8,
    pub color: IDMColor,
}

/// The clock face shown by the device: a style index, the hour format, whether
/// the date is shown, and optional color channels.
#[derive(Clone, Copy, Debug, PartialEq, Eq, Structural)]
pub struct IDMClockMode {
    pub style: u8,
    pub hour24: bool,
    pub visible_date: bool,
    pub r: Option<i32>,
    pub g: Option<i32>,
    pub b: Option<i32>,
}

/// One instruction for the device. Each variant owns its payload.
#[derive(Clone, Debug, PartialEq, Eq)]
pub enum IDMCommand {
    ScreenOn,
    ScreenOff,
    SetPixel(IDMPixel),
    ImageMode(u8),
    UploadPng(Vec<u8>),
    UploadGif(Vec<u8>),
    FullScreenColor(IDMColor),
    ScreenBrightness(u8),
    /// Countdown length in seconds.
    CountdownStart(u64),
    CountdownCancel,
    CountdownPause,
    CountdownResume,
    /// The color-cycle demo, which repaints the screen until interrupted.
    ColorHue,
    ClockMode(IDMClockMode),
}

} // verus!
