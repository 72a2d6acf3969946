use chip8_core::{
    frame_action, FrameAction, handle_event, lit_pixel_rects, map_key, rgba_components, Config, EventOutcome, InputEvent, Key,
    PixelRect, State, SCREEN_HEIGHT, SCREEN_WIDTH, WINDOW_HEIGHT, WINDOW_WIDTH,
};

#[test]
fn config_defaults() {
    let config = Config::new();
    assert_eq!(config.bg_color, 0x000000FF);
    assert_eq!(config.fg_color, 0xFFFFFFFF);
    assert_eq!(config.screen_width, 64);
    assert_eq!(config.screen_height, 32);
    assert_eq!(config.window_width, 960);
    assert_eq!(config.window_height, 480);
    assert_eq!(config.scale, 15);
    assert_eq!(WINDOW_WIDTH, 960);
    assert_eq!(WINDOW_HEIGHT, 480);
    assert_eq!(SCREEN_WIDTH * SCREEN_HEIGHT, 2048);
}

#[test]
fn color_components() {
    assert_eq!(rgba_components(0xFFFFFFFF), (255, 255, 255, 255));
    assert_eq!(rgba_components(0x000000FF), (0, 0, 0, 255));
    assert_eq!(rgba_components(0x12345678), (0x12, 0x34, 0x56, 0x78));
}

#[test]
fn rects_of_lit_pixels() {
    let config = Config::new();
    let mut display = vec![false; 2048];
    display[0] = true;
    display[65] = true;
    display[2047] = true;
    let rects = lit_pixel_rects(&display, &config);
    assert_eq!(
        rects,
        vec![
            PixelRect { x: 0, y: 0, width: 15, height: 15 },
            PixelRect { x: 15, y: 15, width: 15, height: 15 },
            PixelRect { x: 63 * 15, y: 31 * 15, width: 15, height: 15 },
        ]
    );
    assert!(lit_pixel_rects(&vec![false; 2048], &config).is_empty());
}

#[test]
fn keypad_mapping() {
    assert_eq!(map_key(Key::Num0), Some(0));
    assert_eq!(map_key(Key::Num1), Some(1));
    assert_eq!(map_key(Key::Num9), Some(9));
    assert_eq!(map_key(Key::A), Some(0xA));
    assert_eq!(map_key(Key::F), Some(0xF));
    assert_eq!(map_key(Key::Space), None);
    assert_eq!(map_key(Key::Escape), None);
    assert_eq!(map_key(Key::Other), None);
}

#[test]
fn quit_and_escape_stop() {
    for start in [State::RUNNING, State::PAUSED, State::QUIT] {
        let mut state = start;
        assert_eq!(handle_event(&mut state, InputEvent::Quit), EventOutcome::Stop);
        assert_eq!(state, State::QUIT);
        let mut state = start;
        assert_eq!(handle_event(&mut state, InputEvent::KeyDown(Key::Escape)), EventOutcome::Stop);
        assert_eq!(state, State::QUIT);
    }
}

#[test]
fn space_toggles_pause() {
    let mut state = State::RUNNING;
    assert_eq!(handle_event(&mut state, InputEvent::KeyDown(Key::Space)), EventOutcome::Continue);
    assert_eq!(state, State::PAUSED);
    assert_eq!(handle_event(&mut state, InputEvent::KeyDown(Key::Space)), EventOutcome::Continue);
    assert_eq!(state, State::RUNNING);
    let mut quit = State::QUIT;
    handle_event(&mut quit, InputEvent::KeyDown(Key::Space));
    assert_eq!(quit, State::PAUSED);
}

#[test]
fn keypad_keys_are_reported() {
    let mut state = State::PAUSED;
    assert_eq!(handle_event(&mut state, InputEvent::KeyDown(Key::C)), EventOutcome::Pressed(0xC));
    assert_eq!(handle_event(&mut state, InputEvent::KeyUp(Key::Num4)), EventOutcome::Released(4));
    assert_eq!(handle_event(&mut state, InputEvent::KeyUp(Key::Space)), EventOutcome::Continue);
    assert_eq!(handle_event(&mut state, InputEvent::KeyUp(Key::Escape)), EventOutcome::Continue);
    assert_eq!(handle_event(&mut state, InputEvent::Other), EventOutcome::Continue);
    assert_eq!(state, State::PAUSED);
}

#[test]
fn frame_actions() {
    assert_eq!(frame_action(State::RUNNING), FrameAction::Run);
    assert_eq!(frame_action(State::PAUSED), FrameAction::Skip);
    assert_eq!(frame_action(State::QUIT), FrameAction::Exit);
}

#[test]
fn event_sequence_toggles_once_per_space() {
    let events = [
        InputEvent::KeyDown(Key::Space),
        InputEvent::KeyDown(Key::A),
        InputEvent::KeyUp(Key::Space),
        InputEvent::Other,
        InputEvent::KeyDown(Key::Space),
        InputEvent::KeyDown(Key::Space),
    ];
    let mut state = State::RUNNING;
    for event in events {
        assert_ne!(handle_event(&mut state, event), EventOutcome::Stop);
    }
    // Three Space presses from RUNNING: PAUSED, RUNNING, PAUSED.
    assert_eq!(state, State::PAUSED);
}

#[test]
fn no_rects_for_blank_screen_of_width_zero() {
    let mut config = Config::new();
    config.screen_width = 0;
    assert!(lit_pixel_rects(&vec![false; 2048], &config).is_empty());
}

#[test]
fn background_colour_does_not_change_rects() {
    let mut display = vec![false; 2048];
    display[100] = true;
    let config = Config::new();
    let mut other = Config::new();
    other.bg_color = 0x12345678;
    assert_eq!(lit_pixel_rects(&display, &config), lit_pixel_rects(&display, &other));
}
