use chip8::display::Display;

/// A sprite of one column per bit of each row byte, bit 7 leftmost.
fn sprite_from_rows(rows: &[u8]) -> Vec<Vec<u8>> {
    let mut sprite = vec![vec![0u8; rows.len()]; 8];
    for (r, row) in rows.iter().enumerate() {
        for c in 0..8 {
            sprite[c][r] = (row >> (7 - c)) & 1;
        }
    }
    sprite
}

fn lit_count(display: &Display) -> usize {
    let mut count = 0;
    for x in 0..64 {
        for y in 0..32 {
            if display.grid[x][y] != 0 {
                count += 1;
            }
        }
    }
    count
}

#[test]
fn new_display_is_blank() {
    let display = Display::new();
    assert_eq!(lit_count(&display), 0);
}

#[test]
fn cls_turns_every_pixel_off() {
    let mut display = Display::new();
    display.draw_sprite(10, 10, sprite_from_rows(&[0xFF, 0xFF, 0xFF]));
    assert_eq!(lit_count(&display), 24);
    display.cls();
    assert_eq!(lit_count(&display), 0);
}

#[test]
fn draw_sprite_places_bit_7_leftmost() {
    let mut display = Display::new();
    let collision = display.draw_sprite(2, 3, sprite_from_rows(&[0xF0, 0x01]));
    assert!(!collision);
    for x in 2..6 {
        assert_eq!(display.grid[x][3], 1);
    }
    for x in 6..10 {
        assert_eq!(display.grid[x][3], 0);
    }
    assert_eq!(display.grid[9][4], 1);
    assert_eq!(display.grid[2][4], 0);
    assert_eq!(lit_count(&display), 5);
}

#[test]
fn drawing_twice_restores_and_collides_the_second_time() {
    let mut display = Display::new();
    let sprite = sprite_from_rows(&[0xF0, 0x90, 0x90, 0x90, 0xF0]);
    let first = display.draw_sprite(5, 6, sprite.clone());
    assert!(!first);
    assert_eq!(lit_count(&display), 14);
    let second = display.draw_sprite(5, 6, sprite);
    assert!(second);
    assert_eq!(display, Display::new());
}

#[test]
fn drawing_twice_restores_a_frame_that_was_not_blank() {
    let mut display = Display::new();
    display.draw_sprite(0, 0, sprite_from_rows(&[0xAA, 0x55, 0xAA]));
    let before = display.clone();
    let sprite = sprite_from_rows(&[0xFF, 0x81, 0xFF]);
    let first = display.draw_sprite(4, 1, sprite.clone());
    assert!(first);
    assert_ne!(display, before);
    display.draw_sprite(4, 1, sprite);
    assert_eq!(display, before);
}

#[test]
fn all_zero_sprite_never_collides() {
    let mut display = Display::new();
    display.draw_sprite(0, 0, sprite_from_rows(&[0xFF]));
    let before = display.clone();
    assert!(!display.draw_sprite(0, 0, sprite_from_rows(&[0x00])));
    assert!(!display.draw_sprite(0, 0, sprite_from_rows(&[0x00])));
    assert_eq!(display, before);
}

#[test]
fn collision_needs_both_pixels_lit() {
    let mut display = Display::new();
    display.draw_sprite(0, 0, sprite_from_rows(&[0xF0]));
    // lands on the four unlit pixels to the right
    assert!(!display.draw_sprite(4, 0, sprite_from_rows(&[0xF0])));
    assert_eq!(lit_count(&display), 8);
    // overlaps the last lit column
    assert!(display.draw_sprite(7, 0, sprite_from_rows(&[0x80])));
    assert_eq!(display.grid[7][0], 0);
    assert_eq!(lit_count(&display), 7);
}

#[test]
fn origin_wraps_modulo_63_and_31() {
    let mut a = Display::new();
    a.draw_sprite(63, 31, sprite_from_rows(&[0x80]));
    assert_eq!(a.grid[0][0], 1);
    assert_eq!(a.grid[63][31], 0);
    assert_eq!(lit_count(&a), 1);

    let mut b = Display::new();
    b.draw_sprite(62, 30, sprite_from_rows(&[0x80]));
    assert_eq!(b.grid[62][30], 1);
    assert_eq!(lit_count(&b), 1);

    let mut c = Display::new();
    c.draw_sprite(64, 32, sprite_from_rows(&[0x80]));
    assert_eq!(c.grid[1][1], 1);
    assert_eq!(lit_count(&c), 1);

    let mut d = Display::new();
    d.draw_sprite(255, 255, sprite_from_rows(&[0x80]));
    // 255 mod 63 = 3, 255 mod 31 = 7
    assert_eq!(d.grid[3][7], 1);
    assert_eq!(lit_count(&d), 1);
}

#[test]
fn pixels_beyond_the_edges_are_clipped_not_wrapped() {
    let mut display = Display::new();
    let collision = display.draw_sprite(60, 30, sprite_from_rows(&[0xFF, 0xFF, 0xFF]));
    assert!(!collision);
    for x in 60..64 {
        assert_eq!(display.grid[x][30], 1);
        assert_eq!(display.grid[x][31], 1);
    }
    for x in 0..4 {
        for y in 0..32 {
            assert_eq!(display.grid[x][y], 0);
        }
    }
    assert_eq!(lit_count(&display), 8);
}

#[test]
fn clipped_pixels_do_not_collide() {
    let mut display = Display::new();
    display.draw_sprite(0, 0, sprite_from_rows(&[0xF0]));
    // columns 60..=63 are drawn, the four lit ones would fall on columns 64..=67
    assert!(!display.draw_sprite(60, 0, sprite_from_rows(&[0x0F])));
    assert_eq!(lit_count(&display), 4);
}

#[test]
fn sprite_values_other_than_bits_are_xored_as_they_are() {
    let mut display = Display::new();
    display.grid[0][0] = 1;
    display.grid[1][0] = 6;
    let collision = display.draw_sprite(0, 0, vec![vec![3], vec![5]]);
    assert!(!collision);
    assert_eq!(display.grid[0][0], 2);
    assert_eq!(display.grid[1][0], 3);
}

#[test]
fn sprite_without_rows_or_columns_draws_nothing() {
    let mut display = Display::new();
    display.draw_sprite(0, 0, sprite_from_rows(&[0xFF]));
    let before = display.clone();
    assert!(!display.draw_sprite(0, 0, Vec::new()));
    assert!(!display.draw_sprite(0, 0, vec![Vec::new(); 8]));
    assert_eq!(display, before);
}

#[test]
fn wide_and_tall_sprites_are_clipped() {
    let mut display = Display::new();
    let sprite = vec![vec![1u8; 40]; 70];
    assert!(!display.draw_sprite(0, 0, sprite));
    assert_eq!(lit_count(&display), 64 * 32);
}

#[test]
fn lit_pixels_are_listed_row_by_row_with_the_vertical_axis_flipped() {
    let mut display = Display::new();
    assert_eq!(display.lit_pixels(), Vec::<(u8, u8)>::new());
    display.grid[5][0] = 1;
    display.grid[2][0] = 1;
    display.grid[63][31] = 1;
    display.grid[0][1] = 1;
    display.grid[7][7] = 2;
    assert_eq!(display.lit_pixels(), vec![(2, 31), (5, 31), (0, 30), (63, 0)]);
}

#[test]
fn clone_is_equal_to_its_source() {
    let mut display = Display::new();
    display.draw_sprite(9, 9, sprite_from_rows(&[0x3C, 0x42]));
    let copy = display.clone();
    assert_eq!(copy, display);
}

#[test]
fn rows_beyond_the_length_of_the_first_column_are_not_drawn() {
    let mut display = Display::new();
    let sprite = vec![vec![1], vec![1, 1, 1], vec![0, 1]];
    assert!(!display.draw_sprite(0, 0, sprite));
    assert_eq!(display.grid[0][0], 1);
    assert_eq!(display.grid[1][0], 1);
    assert_eq!(display.grid[2][0], 0);
    assert_eq!(lit_count(&display), 2);
}
