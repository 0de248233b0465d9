use gameloop::geometry::Vector2;
use gameloop::input::{Button, Dpad, Joystick, JoystickId, JoystickProvider, FULL_DEFLECTION};

#[test]
fn a_button_is_pressed_while_it_is_down() {
    assert!(!Button::Normal.is_pressed());
    assert!(Button::JustPressed.is_pressed());
    assert!(Button::BeingHeld.is_pressed());
    assert!(!Button::JustReleased.is_pressed());
}

#[test]
fn a_button_is_not_pressed_while_it_is_up() {
    assert!(Button::Normal.is_not_pressed());
    assert!(!Button::JustPressed.is_not_pressed());
    assert!(!Button::BeingHeld.is_not_pressed());
    assert!(Button::JustReleased.is_not_pressed());
}

#[test]
fn a_button_from_a_plain_state() {
    assert_eq!(Button::from(true), Button::BeingHeld);
    assert_eq!(Button::from(false), Button::Normal);
    let held: Button = true.into();
    assert!(held.is_pressed());
}

#[test]
fn the_pad_by_value_points_along_the_screen() {
    assert_eq!(Vector2::from(Dpad::Up), Vector2::new(0, -1));
    assert_eq!(Vector2::from(Dpad::Right), Vector2::new(1, 0));
    assert_eq!(Vector2::from(Dpad::Bottom), Vector2::new(0, 1));
    assert_eq!(Vector2::from(Dpad::Left), Vector2::new(-1, 0));
    let step: Vector2 = Dpad::Bottom.into();
    assert_eq!(step, Vector2::new(0, 1));
}

#[test]
fn the_pad_by_reference_points_along_the_plane() {
    assert_eq!(Vector2::from(&Dpad::Up), Vector2::new(0, 1));
    assert_eq!(Vector2::from(&Dpad::Right), Vector2::new(1, 0));
    assert_eq!(Vector2::from(&Dpad::Bottom), Vector2::new(0, -1));
    assert_eq!(Vector2::from(&Dpad::Left), Vector2::new(-1, 0));
    let step: Vector2 = (&Dpad::Up).into();
    assert_eq!(step, Vector2::new(0, 1));
}

#[test]
fn an_untouched_joystick_is_at_rest() {
    let joystick = Joystick::default();
    assert_eq!(joystick.left_axis, Vector2::zeros());
    assert_eq!(joystick.right_axis, Vector2::zeros());
    assert_eq!(joystick.d_pad, None);
    assert_eq!(joystick.left_trigger_pressure, 0);
    assert_eq!(joystick.right_trigger_pressure, 0);
    let buttons = [
        joystick.left_axis_button,
        joystick.right_axis_button,
        joystick.a,
        joystick.b,
        joystick.x,
        joystick.y,
        joystick.left_bumper,
        joystick.left_trigger,
        joystick.right_bumper,
        joystick.right_trigger,
        joystick.start,
        joystick.back,
    ];
    for button in buttons {
        assert_eq!(button, Button::Normal);
    }
    assert_eq!(joystick.clone(), joystick);
}

#[test]
fn a_provider_hands_out_readings() {
    struct OnePad;
    impl JoystickProvider for OnePad {
        fn joystick(&self, id: JoystickId) -> Joystick {
            let mut joystick = Joystick::default();
            if id == 3 {
                joystick.a = Button::JustPressed;
                joystick.d_pad = Some(Dpad::Left);
            }
            joystick
        }

        fn available_joysticks(&self) -> Vec<JoystickId> {
            vec![3]
        }
    }
    assert_eq!(OnePad.available_joysticks(), vec![3]);
    assert!(OnePad.joystick(3).a.is_pressed());
    assert_eq!(OnePad.joystick(3).d_pad, Some(Dpad::Left));
    assert_eq!(OnePad.joystick(0), Joystick::default());
}

#[test]
fn readings_are_in_thousandths_of_full_deflection() {
    assert_eq!(FULL_DEFLECTION, 1000);
    let mut joystick = Joystick::default();
    joystick.left_trigger_pressure = FULL_DEFLECTION / 2;
    joystick.right_axis = Vector2::new(-FULL_DEFLECTION, FULL_DEFLECTION);
    assert_eq!(joystick.left_trigger_pressure, 500);
    assert_eq!(joystick.right_axis, Vector2::new(-1000, 1000));
    assert!(joystick != Joystick::default());
}
