use chip8_vm::constants::{SCREEN_SIZE, SCREEN_SIZE_X, SCREEN_SIZE_Y};
use chip8_vm::display::{Display, DisplayState, VmDisplay};

#[test]
fn clear() {
    let mut d = VmDisplay::new();

    let mut noise: Vec<u8> = Vec::with_capacity(SCREEN_SIZE);
    for _ in 0..SCREEN_SIZE {
        noise.push(rand::random::<u8>());
    }
    d.set_screen(&noise);

    println!("{}", d.get_screen()[0]);

    d.clear();

    for p in d.get_screen() {
        assert_eq!(*p, 0);
    }
}

#[test]
fn draw_sprite_reports_collision() {
    let mut d = VmDisplay::new();
    let sprite: Vec<u8> = vec![0b1000_0000];

    let first = d.draw_sprite(3, 4, 1, &sprite);
    assert!(matches!(first, DisplayState::Unchanged));
    assert_eq!(d.get_screen()[3 + 4 * SCREEN_SIZE_X], 1);

    let second = d.draw_sprite(3, 4, 1, &sprite);
    assert!(matches!(second, DisplayState::Changed));
    assert_eq!(d.get_screen()[3 + 4 * SCREEN_SIZE_X], 0);
}

#[test]
fn draw_sprite_clips_at_edges() {
    let mut d = VmDisplay::new();
    let sprite: Vec<u8> = vec![0b1111_1111, 0b1111_1111];

    // Bottom-right corner: only the on-screen pixels are written.
    let state = d.draw_sprite(SCREEN_SIZE_X - 2, SCREEN_SIZE_Y - 1, 2, &sprite);
    assert!(matches!(state, DisplayState::Unchanged));

    let screen = d.get_screen();
    let last_row = SCREEN_SIZE_Y - 1;
    assert_eq!(screen[(SCREEN_SIZE_X - 2) + last_row * SCREEN_SIZE_X], 1);
    assert_eq!(screen[(SCREEN_SIZE_X - 1) + last_row * SCREEN_SIZE_X], 1);
    // Nothing bled onto other rows.
    let lit: usize = screen.iter().map(|p| *p as usize).sum();
    assert_eq!(lit, 2);
}

#[test]
fn snapshot_matches_screen() {
    let mut d = VmDisplay::new();
    let sprite: Vec<u8> = vec![0b1010_0000];
    d.draw_sprite(0, 0, 1, &sprite);

    let snap = d.get_snapshot();
    assert_eq!(snap.get_pixel(0, 0), 1);
    assert_eq!(snap.get_pixel(1, 0), 0);
    assert_eq!(snap.get_pixel(2, 0), 1);
    assert_eq!(snap.get_pixel(3, 0), 0);
}
