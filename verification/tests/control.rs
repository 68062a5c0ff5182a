use clockery::config::Configuration;
use clockery::control::{frame_delay, handle_input, renderer_index, settings_of, Command, Input, Settings};

#[test]
fn keys_switch_settings() {
    let s = Settings { am_pm: false, revert: false };
    assert_eq!(handle_input(s, Input::KeyR), (Settings { am_pm: false, revert: true }, Command::Continue));
    assert_eq!(handle_input(s, Input::KeyA), (Settings { am_pm: true, revert: false }, Command::Continue));
    assert_eq!(handle_input(s, Input::Other), (s, Command::Continue));
}

#[test]
fn pressing_twice_undoes() {
    for am_pm in [false, true] {
        for revert in [false, true] {
            let s = Settings { am_pm, revert };
            for key in [Input::KeyR, Input::KeyA] {
                let (once, _) = handle_input(s, key);
                assert_ne!(once, s);
                let (twice, _) = handle_input(once, key);
                assert_eq!(twice, s);
            }
        }
    }
}

#[test]
fn loop_commands() {
    let s = Settings { am_pm: true, revert: false };
    assert_eq!(handle_input(s, Input::Quit), (s, Command::Stop));
    assert_eq!(handle_input(s, Input::KeyEscape), (s, Command::Stop));
    assert_eq!(handle_input(s, Input::KeyQ), (s, Command::Reload));
    assert_eq!(handle_input(s, Input::Resized), (s, Command::Relayout));
}

#[test]
fn settings_from_configuration() {
    let c = Configuration { clocks: vec![None], am_pm: true, revert: true };
    assert_eq!(settings_of(&c), Settings { am_pm: true, revert: true });
}

#[test]
fn frame_delays() {
    assert_eq!(frame_delay(None), 0);
    assert_eq!(frame_delay(Some(60)), 16);
    assert_eq!(frame_delay(Some(0)), 0);
    assert_eq!(frame_delay(Some(-30)), 0);
    assert_eq!(frame_delay(Some((1i64 << 32) + 60)), 16);
}

#[test]
fn renderer_indices_count_from_one() {
    assert_eq!(renderer_index(1), 0);
    assert_eq!(renderer_index(3), 2);
}
