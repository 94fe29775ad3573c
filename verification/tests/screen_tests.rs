use chip8::Screen;

#[test]
fn test_get_dimension() {
    let screen = Screen::new();
    assert_eq!(screen.height(), 32);
    assert_eq!(screen.width(), 64);
}

#[test]
fn test_set_pixel() {
    let mut screen = Screen::new();
    screen.set_pixel(1, 3);
    assert_eq!(screen.get_pixel(1, 3), true);
}

#[test]
fn test_set_pixel_toggles_back_off() {
    let mut screen = Screen::new();
    screen.set_pixel(1, 3);
    screen.set_pixel(1, 3);
    assert_eq!(screen.get_pixel(1, 3), false);
}

#[test]
fn test_clear_switches_everything_off() {
    let mut screen = Screen::new();
    screen.set_pixel(0, 0);
    screen.set_pixel(31, 63);
    screen.clear();
    assert_eq!(screen.get_pixel(0, 0), false);
    assert_eq!(screen.get_pixel(31, 63), false);
    assert!(screen.get_screen_memory().iter().all(|p| !p));
}

#[test]
fn test_screen_memory_is_row_major() {
    let mut screen = Screen::new();
    screen.set_pixel(2, 5);
    let grid = screen.get_screen_memory();
    assert_eq!(grid.len(), 2048);
    assert_eq!(grid[2 * 64 + 5], true);
}
