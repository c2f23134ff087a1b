use christmas_tree::colors::{palette_color, Color};
use christmas_tree::ornament::{
    LightMode, Ornament, BLANK_GLYPH, BLINK_INTERVAL, ORNAMENT_GLYPH,
};

fn in_palette(c: Color) -> bool {
    (0..6).any(|i| palette_color(i) == c)
}

#[test]
fn new_ornament_is_lit_and_at_the_start_of_its_interval() {
    let o = Ornament::new(3, 7, Color::Cyan, LightMode::Blinking);
    assert_eq!(
        o,
        Ornament {
            x: 3,
            y: 7,
            color: Color::Cyan,
            light_mode: LightMode::Blinking,
            is_visible: true,
            blink_counter: 0,
        }
    );
}

#[test]
fn new_does_not_check_the_position() {
    let o = Ornament::new(u16::MAX, u16::MAX, Color::Green, LightMode::Pulsing);
    assert_eq!((o.x, o.y), (u16::MAX, u16::MAX));
    assert_eq!(o.light_mode, LightMode::Pulsing);
}

#[test]
fn blink_interval_is_five_ticks() {
    assert_eq!(BLINK_INTERVAL, 5);
}

#[test]
fn four_ticks_only_count() {
    let mut o = Ornament::new(1, 2, Color::Red, LightMode::Blinking);
    for k in 1..=4u32 {
        o.tick(Color::Green);
        assert_eq!(o.color, Color::Red);
        assert_eq!(o.blink_counter, k);
        assert!(o.is_visible);
        assert_eq!((o.x, o.y), (1, 2));
    }
}

#[test]
fn fifth_tick_takes_the_offered_color_and_resets() {
    let mut o = Ornament::new(1, 2, Color::Red, LightMode::Blinking);
    o.tick(Color::Blue);
    o.tick(Color::Yellow);
    o.tick(Color::Magenta);
    o.tick(Color::Cyan);
    assert_eq!(o.color, Color::Red);
    o.tick(Color::Green);
    assert_eq!(
        o,
        Ornament {
            x: 1,
            y: 2,
            color: Color::Green,
            light_mode: LightMode::Blinking,
            is_visible: true,
            blink_counter: 0,
        }
    );
}

#[test]
fn tenth_tick_recolors_again() {
    let mut o = Ornament::new(0, 0, Color::Red, LightMode::Blinking);
    for _ in 0..5 {
        o.tick(Color::Blue);
    }
    assert_eq!(o.color, Color::Blue);
    for _ in 0..4 {
        o.tick(Color::White);
        assert_eq!(o.color, Color::Blue);
    }
    o.tick(Color::White);
    assert_eq!(o.color, Color::White);
    assert_eq!(o.blink_counter, 0);
}

#[test]
fn tick_does_not_light_a_dark_blinking_ornament() {
    let mut o = Ornament::new(0, 0, Color::Red, LightMode::Blinking);
    o.is_visible = false;
    for _ in 0..5 {
        o.tick(Color::Blue);
        assert!(!o.is_visible);
    }
    assert_eq!(o.color, Color::Blue);
}

#[test]
fn tick_at_a_counter_past_the_interval_recolors() {
    let mut o = Ornament::new(0, 0, Color::Red, LightMode::Blinking);
    o.blink_counter = 4;
    o.tick(Color::Cyan);
    assert_eq!((o.color, o.blink_counter), (Color::Cyan, 0));
    o.blink_counter = 17;
    o.tick(Color::Yellow);
    assert_eq!((o.color, o.blink_counter), (Color::Yellow, 0));
    o.blink_counter = u32::MAX;
    o.tick(Color::Magenta);
    assert_eq!((o.color, o.blink_counter), (Color::Magenta, 0));
}

#[test]
fn recolor_is_due_on_the_last_tick_of_an_interval() {
    let mut o = Ornament::new(0, 0, Color::Red, LightMode::Blinking);
    for k in 0..4u32 {
        o.blink_counter = k;
        assert!(!o.is_recolor_due());
    }
    o.blink_counter = 4;
    assert!(o.is_recolor_due());
    o.light_mode = LightMode::Steady;
    assert!(!o.is_recolor_due());
    o.light_mode = LightMode::Fading;
    assert!(!o.is_recolor_due());
    o.light_mode = LightMode::Pulsing;
    assert!(!o.is_recolor_due());
}

#[test]
fn five_updates_recolor_once_on_the_fifth() {
    for _ in 0..50 {
        let mut o = Ornament::new(4, 5, Color::Green, LightMode::Blinking);
        for k in 1..=4u32 {
            o.update();
            assert_eq!(o.color, Color::Green);
            assert_eq!(o.blink_counter, k);
            assert!(o.is_visible);
        }
        o.update();
        assert!(in_palette(o.color));
        assert_eq!(o.blink_counter, 0);
        assert!(o.is_visible);
        assert_eq!((o.x, o.y), (4, 5));
        assert_eq!(o.light_mode, LightMode::Blinking);
    }
}

#[test]
fn static_modes_never_change_color() {
    for mode in [LightMode::Steady, LightMode::Fading, LightMode::Pulsing] {
        let mut o = Ornament::new(2, 3, Color::Green, mode);
        for _ in 0..12 {
            o.update();
            assert_eq!(o, Ornament::new(2, 3, Color::Green, mode));
        }
        for _ in 0..12 {
            o.tick(Color::Blue);
            assert_eq!(o, Ornament::new(2, 3, Color::Green, mode));
        }
    }
}

#[test]
fn static_modes_light_a_dark_ornament_and_keep_its_counter() {
    for mode in [LightMode::Steady, LightMode::Fading, LightMode::Pulsing] {
        let mut o = Ornament::new(2, 3, Color::Green, mode);
        o.is_visible = false;
        o.blink_counter = 3;
        o.update();
        assert!(o.is_visible);
        assert_eq!(o.color, Color::Green);
        assert_eq!(o.blink_counter, 3);
    }
}

#[test]
fn get_char_is_the_marker_when_lit_and_a_blank_otherwise() {
    let mut o = Ornament::new(0, 0, Color::Red, LightMode::Blinking);
    assert_eq!(o.get_char(), 'o');
    assert_eq!(ORNAMENT_GLYPH, 'o');
    o.is_visible = false;
    assert_eq!(o.get_char(), ' ');
    assert_eq!(BLANK_GLYPH, ' ');
}
