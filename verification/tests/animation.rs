use christmas_tree::animation::{
    AnimationLoop, Key, LoopState, FRAME_INTERVAL_MS, QUIT_KEY, RECOLOR_KEY, SPEED_KEY,
};
use christmas_tree::colors::Color;
use christmas_tree::ornament::Ornament;
use christmas_tree::render::compose;
use christmas_tree::tree::ChristmasTree;

fn snapshot(animation: &AnimationLoop) -> (Vec<String>, Vec<Ornament>, u16, u16, bool, u64) {
    (
        animation.tree.grid.clone(),
        animation.tree.ornaments.clone(),
        animation.tree.width,
        animation.tree.height,
        animation.running,
        animation.frame_count,
    )
}

#[test]
fn loop_constants() {
    assert_eq!(FRAME_INTERVAL_MS, 100);
    assert_eq!(QUIT_KEY, 'q');
    assert_eq!(RECOLOR_KEY, 'r');
    assert_eq!(SPEED_KEY, 's');
}

#[test]
fn new_loop_is_idle() {
    let animation = AnimationLoop::new();
    assert!(!animation.running);
    assert_eq!(animation.frame_count, 0);
    assert_eq!(animation.state(), LoopState::Idle);
    assert_eq!(animation.tree.grid, ChristmasTree::get_ascii_tree());
    assert_eq!(animation.tree.ornaments.len(), 8);
}

#[test]
fn default_loop_is_idle() {
    let animation = AnimationLoop::default();
    assert!(!animation.running);
    assert_eq!(animation.frame_count, 0);
    assert_eq!(animation.state(), LoopState::Idle);
    assert_eq!(animation.tree.ornaments.len(), 8);
}

#[test]
fn start_sets_the_loop_running_and_nothing_else() {
    let mut animation = AnimationLoop::new();
    let before = snapshot(&animation);
    animation.start();
    assert!(animation.running);
    assert_eq!(animation.state(), LoopState::Running);
    let after = snapshot(&animation);
    assert_eq!((after.0, after.1, after.2, after.3, after.5), (before.0, before.1, before.2, before.3, before.5));
}

#[test]
fn quit_keys_stop_the_loop() {
    for key in [Key::Char('q'), Key::Esc] {
        let mut animation = AnimationLoop::new();
        animation.start();
        let before = snapshot(&animation);
        animation.handle_input(Some(key));
        assert!(!animation.running);
        let after = snapshot(&animation);
        assert_eq!((after.0, after.1, after.2, after.3, after.5), (before.0, before.1, before.2, before.3, before.5));
    }
}

#[test]
fn other_keys_change_nothing() {
    let keys = [
        None,
        Some(Key::Char('r')),
        Some(Key::Char('s')),
        Some(Key::Char('x')),
        Some(Key::Char('Q')),
        Some(Key::Char(' ')),
        Some(Key::Char('\u{1b}')),
        Some(Key::Other),
    ];
    for running in [false, true] {
        for key in keys {
            let mut animation = AnimationLoop::new();
            animation.running = running;
            animation.frame_count = 41;
            let before = snapshot(&animation);
            animation.handle_input(key);
            assert_eq!(snapshot(&animation), before);
        }
    }
}

#[test]
fn quit_key_on_a_loop_that_is_not_running_leaves_it_so() {
    let mut animation = AnimationLoop::new();
    animation.handle_input(Some(Key::Esc));
    assert!(!animation.running);
    assert_eq!(animation.frame_count, 0);
    assert_eq!(animation.state(), LoopState::Idle);
}

#[test]
fn update_ticks_the_tree_only() {
    let mut animation = AnimationLoop::new();
    animation.start();
    let before = animation.tree.ornaments.clone();
    animation.update();
    assert!(animation.running);
    assert_eq!(animation.frame_count, 0);
    for (o, b) in animation.tree.ornaments.iter().zip(before.iter()) {
        assert_eq!(*o, Ornament { blink_counter: 1, ..*b });
    }
}

#[test]
fn render_composes_the_tree_as_it_is() {
    let mut animation = AnimationLoop::new();
    animation.tree.ornaments[0].is_visible = false;
    animation.tree.ornaments[1].color = Color::Green;
    let frame = animation.render();
    assert_eq!(frame, compose(&animation.tree.grid, &animation.tree.ornaments));
    assert_eq!(frame, animation.render());
    let dark = animation.tree.ornaments[0];
    let green = animation.tree.ornaments[1];
    assert_eq!(frame.rows[dark.y as usize][dark.x as usize].glyph, ' ');
    assert_eq!(frame.rows[dark.y as usize][dark.x as usize].color, None);
    assert_eq!(frame.rows[green.y as usize][green.x as usize].glyph, 'o');
    assert_eq!(frame.rows[green.y as usize][green.x as usize].color, Some(Color::Green));
}

#[test]
fn quit_at_once_still_completes_one_pass() {
    for key in [Key::Char('q'), Key::Esc] {
        let mut animation = AnimationLoop::new();
        animation.start();
        let before = animation.tree.ornaments.clone();
        let mut passes = 0;
        while animation.running {
            let frame = animation.step(Some(key));
            passes += 1;
            assert_eq!(frame.rows.len(), 27);
            assert_eq!(frame, animation.render());
        }
        assert_eq!(passes, 1);
        assert_eq!(animation.frame_count, 1);
        assert_eq!(animation.state(), LoopState::Stopped);
        for (o, b) in animation.tree.ornaments.iter().zip(before.iter()) {
            assert_eq!(*o, Ornament { blink_counter: 1, ..*b });
        }
    }
}

#[test]
fn loop_runs_until_a_quit_key() {
    let inputs = [
        None,
        Some(Key::Char('x')),
        Some(Key::Char('r')),
        None,
        Some(Key::Other),
        Some(Key::Char('s')),
        Some(Key::Esc),
        None,
        None,
    ];
    let mut animation = AnimationLoop::new();
    animation.start();
    let placed: Vec<(u16, u16)> = animation.tree.ornaments.iter().map(|o| (o.x, o.y)).collect();
    let mut next = inputs.iter();
    while animation.running {
        let input = *next.next().unwrap();
        let count = animation.frame_count;
        animation.step(input);
        assert_eq!(animation.frame_count, count + 1);
    }
    assert_eq!(animation.frame_count, 7);
    assert_eq!(animation.state(), LoopState::Stopped);
    let still: Vec<(u16, u16)> = animation.tree.ornaments.iter().map(|o| (o.x, o.y)).collect();
    assert_eq!(still, placed);
    for o in &animation.tree.ornaments {
        assert_eq!(o.blink_counter, 2);
    }
}

#[test]
fn step_shows_the_tree_after_its_tick() {
    let mut animation = AnimationLoop::new();
    animation.start();
    for o in animation.tree.ornaments.iter_mut() {
        o.blink_counter = 4;
        o.color = Color::Green;
    }
    let frame = animation.step(None);
    for o in &animation.tree.ornaments {
        assert_ne!(o.color, Color::Green);
        assert_eq!(frame.rows[o.y as usize][o.x as usize].color, Some(o.color));
    }
    assert!(animation.running);
    assert_eq!(animation.frame_count, 1);
}

#[test]
fn step_counts_up_to_the_last_frame() {
    let mut animation = AnimationLoop::new();
    animation.start();
    animation.frame_count = u64::MAX - 1;
    animation.step(None);
    assert_eq!(animation.frame_count, u64::MAX);
}
