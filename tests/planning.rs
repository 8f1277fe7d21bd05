use idotmatrix::{plan_commands, IDMColor, IDMCommand, PlanError, Request};

#[test]
fn empty_request_plans_nothing() {
    assert_eq!(plan_commands(Request::default()), Ok(vec![]));
}

#[test]
fn brightness_above_100_is_refused() {
    let mut q = Request::default();
    q.screen_on = true;
    q.screen_brightness = Some(101);
    assert_eq!(plan_commands(q), Err(PlanError::Brightness(101)));
    let mut q = Request::default();
    q.screen_brightness = Some(255);
    assert_eq!(plan_commands(q), Err(PlanError::Brightness(255)));
}

#[test]
fn brightness_bounds_are_accepted() {
    for b in [0u8, 100] {
        let mut q = Request::default();
        q.screen_brightness = Some(b);
        assert_eq!(plan_commands(q), Ok(vec![IDMCommand::ScreenBrightness(b)]));
    }
}

#[test]
fn commands_follow_fixed_order() {
    let mut q = Request::default();
    q.clock_mode = None;
    q.countdown_resume = true;
    q.full_screen_color = Some(IDMColor { r: 1, g: 2, b: 3 });
    q.upload_png = Some(vec![9, 8, 7]);
    q.screen_off = true;
    q.screen_on = true;
    q.countdown_start = Some(90);
    q.color_hue = true;
    q.image_mode = Some(1);
    assert_eq!(
        plan_commands(q),
        Ok(vec![
            IDMCommand::ScreenOn,
            IDMCommand::ScreenOff,
            IDMCommand::ImageMode(1),
            IDMCommand::UploadPng(vec![9, 8, 7]),
            IDMCommand::FullScreenColor(IDMColor { r: 1, g: 2, b: 3 }),
            IDMCommand::CountdownStart(90),
            IDMCommand::CountdownResume,
            IDMCommand::ColorHue,
        ])
    );
}
