use vstd::prelude::*;
use crate::types::{IDMClockMode, IDMColor, IDMCommand, IDMPixel};

verus! {

/// The actions asked for on one invocation, each absent or present.
pub struct Request {
    pub screen_on: bool,
    pub screen_off: bool,
    pub set_pixel: Option<IDMPixel>,
    pub image_mode: Option<u8>,
    /// The bytes of a PNG file to upload.
    pub upload_png: Option<Vec<u8>>,
    /// The bytes of a GIF file to upload.
    pub upload_gif: Option<Vec<u8>>,
    pub full_screen_color: Option<IDMColor>,
    /// Brightness in percent.
    pub screen_brightness: Option<u8>,
    /// Countdown length in seconds.
    pub countdown_start: Option<u64>,
    pub countdown_cancel: bool,
    pub countdown_pause: bool,
    pub countdown_resume: bool,
    pub color_hue: bool,
    pub clock_mode: Option<IDMClockMode>,
}

impl Default for Request {
    /// A request that asks for nothing.
    fn default() -> (r: Request)
        ensures
            !r.screen_on && !r.screen_off && !r.countdown_cancel && !r.countdown_pause,
            !r.countdown_resume && !r.color_hue,
            r.set_pixel is None && r.image_mode is None && r.upload_png is None,
            r.upload_gif is None && r.full_screen_color is None && r.screen_brightness is None,
            r.countdown_start is None && r.clock_mode is None,
    {
        Request {
            screen_on: false,
            screen_off: false,
            set_pixel: None,
            image_mode: None,
            upload_png: None,
            upload_gif: None,
            full_screen_color: None,
            screen_brightness: None,
            countdown_start: None,
            countdown_cancel: false,
            countdown_pause: false,
            countdown_resume: false,
            color_hue: false,
            clock_mode: None,
        }
    }
}

/// Why a request was refused before anything was sent.
#[derive(Clone, Copy, Debug, PartialEq, Eq, Structural)]
pub enum PlanError {
    /// The brightness, in percent, is above 100.
    Brightness(u8),
}

/// The highest brightness, in percent.
pub const MAX_BRIGHTNESS: u8 = 100;

/// The one command `c` holds, or none.
pub open spec fn opt_seq(c: Option<IDMCommand>) -> Seq<IDMCommand> {
    match c {
        Some(x) => seq![x],
        None => Seq::empty(),
    }
}

pub open spec fn when(on: bool, c: IDMCommand) -> Option<IDMCommand> {
    if on {
        Some(c)
    } else {
        None
    }
}

/// The commands a request asks for, in their fixed order.
pub open spec fn commands_of(q: Request) -> Seq<IDMCommand> {
    opt_seq(when(q.screen_on, IDMCommand::ScreenOn))
        + opt_seq(when(q.screen_off, IDMCommand::ScreenOff))
        + opt_seq(when(q.set_pixel is Some, IDMCommand::SetPixel(q.set_pixel->0)))
        + opt_seq(when(q.image_mode is Some, IDMCommand::ImageMode(q.image_mode->0)))
        + opt_seq(when(q.upload_png is Some, IDMCommand::UploadPng(q.upload_png->0)))
        + opt_seq(when(q.upload_gif is Some, IDMCommand::UploadGif(q.upload_gif->0)))
        + opt_seq(
            when(q.full_screen_color is Some, IDMCommand::FullScreenColor(q.full_screen_color->0)),
        )
        + opt_seq(
            when(q.screen_brightness is Some, IDMCommand::ScreenBrightness(q.screen_brightness->0)),
        )
        + opt_seq(
            when(q.countdown_start is Some, IDMCommand::CountdownStart(q.countdown_start->0)),
        )
        + opt_seq(when(q.countdown_cancel, IDMCommand::CountdownCancel))
        + opt_seq(when(q.countdown_pause, IDMCommand::CountdownPause))
        + opt_seq(when(q.countdown_resume, IDMCommand::CountdownResume))
        + opt_seq(when(q.color_hue, IDMCommand::ColorHue))
        + opt_seq(when(q.clock_mode is Some, IDMCommand::ClockMode(q.clock_mode->0)))
}

/// Whether the request's brightness, if any, is out of range.
pub open spec fn bad_brightness(q: Request) -> bool {
    q.screen_brightness matches Some(b) && b > MAX_BRIGHTNESS
}

fn push_some(v: &mut Vec<IDMCommand>, c: Option<IDMCommand>)
    ensures
        final(v)@ == old(v)@ + opt_seq(c),
{
    if let Some(x) = c {
        v.push(x);
    }
    assert(final(v)@ =~= old(v)@ + opt_seq(c));
}

/// The commands to send for `q`, in their fixed order; a brightness above 100
/// refuses the whole request, so that nothing is sent.
pub fn plan_commands(q: Request) -> (r: Result<Vec<IDMCommand>, PlanError>)
    ensures
        bad_brightness(q) ==> r == Err::<Vec<IDMCommand>, PlanError>(
            PlanError::Brightness(q.screen_brightness->0),
        ),
        !bad_brightness(q) ==> (r matches Ok(v) && v@ == commands_of(q)),
{
    if let Some(b) = q.screen_brightness {
        if b > MAX_BRIGHTNESS {
            return Err(PlanError::Brightness(b));
        }
    }
    let mut v: Vec<IDMCommand> = Vec::new();
    push_some(&mut v, if q.screen_on { Some(IDMCommand::ScreenOn) } else { None });
    push_some(&mut v, if q.screen_off { Some(IDMCommand::ScreenOff) } else { None });
    push_some(
        &mut v,
        match q.set_pixel {
            Some(p) => Some(IDMCommand::SetPixel(p)),
            None => None,
        },
    );
    push_some(
        &mut v,
        match q.image_mode {
            Some(m) => Some(IDMCommand::ImageMode(m)),
            None => None,
        },
    );
    push_some(
        &mut v,
        match q.upload_png {
            Some(d) => Some(IDMCommand::UploadPng(d)),
            None => None,
        },
    );
    push_some(
        &mut v,
        match q.upload_gif {
            Some(d) => Some(IDMCommand::UploadGif(d)),
            None => None,
        },
    );
    push_some(
        &mut v,
        match q.full_screen_color {
            Some(c) => Some(IDMCommand::FullScreenColor(c)),
            None => None,
        },
    );
    push_some(
        &mut v,
        match q.screen_brightness {
            Some(b) => Some(IDMCommand::ScreenBrightness(b)),
            None => None,
        },
    );
    push_some(
        &mut v,
        match q.countdown_start {
            Some(secs) => Some(IDMCommand::CountdownStart(secs)),
            None => None,
        },
    );
    push_some(&mut v, if q.countdown_cancel { Some(IDMCommand::CountdownCancel) } else { None });
    push_some(&mut v, if q.countdown_pause { Some(IDMCommand::CountdownPause) } else { None });
    push_some(&mut v, if q.countdown_resume { Some(IDMCommand::CountdownResume) } else { None });
    push_some(&mut v, if q.color_hue { Some(IDMCommand::ColorHue) } else { None });
    push_some(
        &mut v,
        match q.clock_mode {
            Some(m) => Some(IDMCommand::ClockMode(m)),
            None => None,
        },
    );
    Ok(v)
}

} // verus!
