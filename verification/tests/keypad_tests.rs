use chip8::keypad::{
    button_label, event_for_char, event_for_keystroke, key_for_char, key_name, pad_label,
    Keystroke, PAD_LAYOUT,
};
use chip8::layout::{centered, inside_border, too_small, Area};
use chip8::scheduler::{App, Event, KEY_DECAY_NANOS, TICK_NANOS};
use chip8::trace::{describe_clear, describe_return, push_decimal};

#[test]
fn typed_characters_stand_for_keys() {
    let expected = [
        ('1', 0x1), ('2', 0x2), ('3', 0x3), ('4', 0xC),
        ('q', 0x4), ('w', 0x5), ('e', 0x6), ('r', 0xD),
        ('a', 0x7), ('s', 0x8), ('d', 0x9), ('f', 0xE),
        ('z', 0xA), ('x', 0x0), ('c', 0xB), ('v', 0xF),
    ];
    for (c, key) in expected {
        assert_eq!(key_for_char(c), Some(key));
        assert_eq!(event_for_char(c), Event::KeyPress(key));
    }
    for c in ['0', '5', 'Q', 'g', 'p', '<', '>', ' ', '\n', 'é'] {
        assert_eq!(key_for_char(c), None);
    }
}

#[test]
fn typed_characters_stand_for_commands() {
    assert_eq!(event_for_char('g'), Event::BeginRewind(2));
    assert_eq!(event_for_char('<'), Event::StepBack);
    assert_eq!(event_for_char('>'), Event::StepForward);
    assert_eq!(event_for_char('p'), Event::TogglePause);
    assert_eq!(event_for_char('0'), Event::Redraw);
    assert_eq!(event_for_char('Q'), Event::Redraw);
    assert_eq!(event_for_char('~'), Event::Redraw);
}

#[test]
fn keys_are_named_by_their_hexadecimal_digit() {
    let names = ["0", "1", "2", "3", "4", "5", "6", "7", "8", "9", "A", "B", "C", "D", "E", "F"];
    for key in 0..16u8 {
        assert_eq!(key_name(key), names[key as usize]);
    }
}

#[test]
fn buttons_are_labelled_with_the_host_key() {
    let labels = ["X", "1", "2", "3", "Q", "W", "E", "A", "S", "D", "Z", "C", "4", "R", "F", "V"];
    for key in 0..16u8 {
        assert_eq!(button_label(key), labels[key as usize]);
    }
}

#[test]
fn typing_the_label_of_a_button_presses_its_key() {
    for key in 0..16u8 {
        let label = button_label(key).chars().next().unwrap();
        assert_eq!(key_for_char(label.to_ascii_lowercase()), Some(key));
    }
}

#[test]
fn pad_shows_key_names_or_host_keys() {
    let mut app = App::new();
    assert_eq!(pad_label(&app, 0xC), "C");
    assert_eq!(pad_label(&app, 0x0), "0");
    app.show_real_controls = false;
    assert_eq!(pad_label(&app, 0xC), "4");
    assert_eq!(pad_label(&app, 0x0), "X");
}

#[test]
fn pad_layout_holds_every_key_once() {
    assert_eq!(PAD_LAYOUT, [1, 2, 3, 0xC, 4, 5, 6, 0xD, 7, 8, 9, 0xE, 0xA, 0, 0xB, 0xF]);
    let mut sorted = PAD_LAYOUT.to_vec();
    sorted.sort();
    assert_eq!(sorted, (0..16).collect::<Vec<u8>>());
}

#[test]
fn decimal_is_written_without_leading_zeros() {
    for n in [0u16, 7, 9, 10, 16, 99, 100, 101, 4095, 9999, 10000, 65535] {
        let mut text = String::from("n=");
        push_decimal(&mut text, n);
        assert_eq!(text, format!("n={}", n));
    }
}

#[test]
fn clear_and_return_are_described() {
    assert_eq!(describe_clear(), "[0x0] opcode\nClear display. Fills screen with 0's.");
    assert_eq!(
        describe_return(12, 11),
        "[0x0] opcode\nFlow return. Returns from subroutine. Decrement stack size from 12 to 11. Set program counter to previous stack value"
    );
    assert_eq!(
        describe_return(1, 0),
        format!(
            "[{:#X}] opcode\nFlow return. Returns from subroutine. Decrement stack size from {} to {}. Set program counter to previous stack value",
            0, 1, 0
        )
    );
}

#[test]
fn terminal_below_30_by_18_is_too_small() {
    assert!(!too_small(30, 18));
    assert!(too_small(29, 18));
    assert!(too_small(30, 17));
    assert!(too_small(0, 0));
    assert!(!too_small(200, 60));
}

#[test]
fn border_takes_one_cell_on_each_side() {
    assert_eq!(inside_border(30, 18), Area { x: 1, y: 1, width: 28, height: 16 });
    assert_eq!(inside_border(2, 2), Area { x: 1, y: 1, width: 0, height: 0 });
}

#[test]
fn centred_part_has_equal_margins() {
    assert_eq!(centered(60), [20, 60, 20]);
    assert_eq!(centered(20), [40, 20, 40]);
    assert_eq!(centered(100), [0, 100, 0]);
    assert_eq!(centered(0), [50, 0, 50]);
    assert_eq!(centered(75), [12, 75, 12]);
}

#[test]
fn key_strokes_stand_for_events() {
    assert_eq!(event_for_keystroke(Keystroke::Ctrl('c')), Event::Quit);
    assert_eq!(event_for_keystroke(Keystroke::Ctrl('d')), Event::ToggleDebug);
    assert_eq!(event_for_keystroke(Keystroke::Ctrl('o')), Event::ToggleControls);
    assert_eq!(event_for_keystroke(Keystroke::Ctrl('r')), Event::Reset);
    assert_eq!(event_for_keystroke(Keystroke::Ctrl('l')), Event::Redraw);
    assert_eq!(event_for_keystroke(Keystroke::Ctrl('g')), Event::Redraw);
    assert_eq!(event_for_keystroke(Keystroke::Char('c')), Event::KeyPress(0xB));
    assert_eq!(event_for_keystroke(Keystroke::Char('r')), Event::KeyPress(0xD));
    assert_eq!(event_for_keystroke(Keystroke::Char('d')), Event::KeyPress(0x9));
    assert_eq!(event_for_keystroke(Keystroke::Char('g')), Event::BeginRewind(2));
    assert_eq!(event_for_keystroke(Keystroke::Char('?')), Event::Redraw);
    assert_eq!(event_for_keystroke(Keystroke::Other), Event::Redraw);
}

#[test]
fn key_decay_clock_is_three_times_slower_than_the_cpu_clock() {
    assert_eq!(TICK_NANOS, 16_666_667);
    assert_eq!(KEY_DECAY_NANOS, 50_000_001);
}
