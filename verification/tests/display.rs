use chip8::video::Video;

#[test]
fn new_display_is_blank_and_clean() {
    let v = Video::new();
    assert!(!v.is_dirty());
    let grid = v.snapshot();
    assert_eq!(grid.len(), 64 * 32);
    for px in grid {
        assert!(!px);
    }
}

#[test]
fn update_toggles_one_pixel_and_marks_dirty() {
    let mut v = Video::new();
    v.update(3, 2);
    assert!(v.get_pixel(3, 2));
    assert!(!v.get_pixel(2, 3));
    assert!(v.is_dirty());
    v.update(3, 2);
    assert!(!v.get_pixel(3, 2));
}

#[test]
fn update_wraps_coordinates() {
    let mut v = Video::new();
    v.update(64 + 6, 32 + 8);
    assert!(v.get_pixel(6, 8));
}

#[test]
fn clear_turns_everything_off_and_marks_dirty() {
    let mut v = Video::new();
    v.update(10, 10);
    v.acknowledge_render();
    assert!(!v.is_dirty());
    v.clear();
    assert!(v.is_dirty());
    assert!(!v.get_pixel(10, 10));
}

#[test]
fn acknowledge_render_clears_only_the_flag() {
    let mut v = Video::new();
    v.update(1, 1);
    assert!(v.is_dirty());
    v.acknowledge_render();
    assert!(!v.is_dirty());
    assert!(v.get_pixel(1, 1)); // the pixel itself stays
}

#[test]
fn draw_sprite_sets_pixels_msb_leftmost() {
    let mut v = Video::new();
    let collided = v.draw_sprite(8, 4, &vec![0b1010_0001]);
    assert!(!collided);
    assert!(v.get_pixel(8, 4));
    assert!(!v.get_pixel(9, 4));
    assert!(v.get_pixel(10, 4));
    assert!(!v.get_pixel(11, 4));
    assert!(v.get_pixel(15, 4));
    assert!(v.is_dirty());
}

#[test]
fn draw_sprite_twice_restores_the_grid_and_collides() {
    let mut v = Video::new();
    let sprite = vec![0xF0, 0x90, 0x90, 0x90, 0xF0];
    let first = v.draw_sprite(12, 7, &sprite);
    assert!(!first);
    let second = v.draw_sprite(12, 7, &sprite);
    assert!(second); // every set bit lands on a pixel the first draw set
    for px in v.snapshot() {
        assert!(!px); // back to the pre-draw state
    }
}

#[test]
fn draw_empty_sprite_changes_nothing() {
    let mut v = Video::new();
    let collided = v.draw_sprite(0, 0, &vec![0x00, 0x00]);
    assert!(!collided);
    assert!(!v.is_dirty()); // no pixel changed
}

#[test]
fn collision_only_where_bits_overlap() {
    let mut v = Video::new();
    assert!(!v.draw_sprite(0, 0, &vec![0b1111_0000]));
    // Shifted by four: lands on fresh pixels only.
    assert!(!v.draw_sprite(4, 1, &vec![0b1111_0000]));
    // Overlaps the first row in one pixel.
    assert!(v.draw_sprite(3, 0, &vec![0b1000_0000]));
}
