use splitflap::drum::{forward_distance, ResetStep};
use splitflap::module::{Module, MODULE_HOME_OFFSET, MODULE_STEPS_PER_REV};

#[test]
fn flap_numbers_of_supported_bytes() {
    assert_eq!(Module::flap_number(b' '), Some(0));
    assert_eq!(Module::flap_number(b'A'), Some(1));
    assert_eq!(Module::flap_number(b'Z'), Some(26));
    assert_eq!(Module::flap_number(b'a'), Some(1));
    assert_eq!(Module::flap_number(b'z'), Some(26));
    assert_eq!(Module::flap_number(b'0'), Some(27));
    assert_eq!(Module::flap_number(b'9'), Some(36));
}

#[test]
fn flap_numbers_of_unsupported_bytes() {
    for c in [b'!', b'/', b':', b'@', b'[', b'`', b'{', 0u8, 31u8, 200u8] {
        assert_eq!(Module::flap_number(c), None, "byte {}", c);
    }
}

#[test]
fn letters_ignore_case() {
    for c in b'A'..=b'Z' {
        assert_eq!(Module::flap_number(c), Module::flap_number(c + 32));
    }
}

#[test]
fn new_module_stands_at_home() {
    let m = Module::new();
    assert_eq!(m.position(), 0);
}

#[test]
fn print_char_turns_forward_to_the_flap() {
    let mut m = Module::new();
    assert_eq!(m.print_char(b'A'), 111);
    assert_eq!(m.position(), 111);
    assert_eq!(m.print_char(b'B'), 110);
    assert_eq!(m.position(), 221);
    // Going back to an earlier flap takes the long way round: the drum only turns forward.
    assert_eq!(m.print_char(b'A'), MODULE_STEPS_PER_REV - 110);
    assert_eq!(m.position(), 111);
    // The same letter in lower case is already shown.
    assert_eq!(m.print_char(b'a'), 0);
    assert_eq!(m.position(), 111);
}

#[test]
fn print_char_digits_and_blank() {
    let mut m = Module::new();
    assert_eq!(m.print_char(b'9'), 3985);
    assert_eq!(m.print_char(b'0'), 2989 + 4096 - 3985);
    assert_eq!(m.position(), 2989);
    assert_eq!(m.print_char(b' '), 4096 - 2989);
    assert_eq!(m.position(), 0);
}

#[test]
fn reset_seeks_while_the_sensor_reads_high() {
    let mut m = Module::new();
    m.print_char(b'K');
    assert_eq!(m.reset(true), ResetStep::Seek(1));
    assert_eq!(m.position(), 1218);
    assert_eq!(m.reset(false), ResetStep::Home(MODULE_HOME_OFFSET));
    assert_eq!(MODULE_HOME_OFFSET, 280);
    assert_eq!(m.position(), 0);
}

#[test]
fn print_text_gives_one_move_per_letter() {
    let mut m = Module::new();
    assert_eq!(m.print_text(b"HI"), vec![886, 110]);
    assert_eq!(m.position(), 996);
}

#[test]
fn print_text_empty_keeps_the_drum() {
    let mut m = Module::new();
    m.print_char(b'Q');
    assert_eq!(m.print_text(b""), Vec::<i32>::new());
    assert_eq!(m.position(), 1882);
}

#[test]
fn print_text_steps_add_up_to_the_final_position() {
    let mut m = Module::new();
    let steps = m.print_text(b"Z A");
    assert_eq!(steps, vec![2878, 1218, 111]);
    let total: i32 = steps.iter().sum();
    assert_eq!(total % MODULE_STEPS_PER_REV, m.position());
    assert_eq!(m.position(), 111);
}

#[test]
fn forward_distance_wraps_round() {
    assert_eq!(forward_distance(0, 0, 4096), 0);
    assert_eq!(forward_distance(100, 300, 4096), 200);
    assert_eq!(forward_distance(300, 100, 4096), 3896);
    assert_eq!(forward_distance(4095, 0, 4096), 1);
}

#[test]
fn distinct_letters_show_at_distinct_positions() {
    let supported: Vec<u8> = (b' '..=b' ').chain(b'A'..=b'Z').chain(b'0'..=b'9').collect();
    let mut positions = Vec::new();
    for c in supported {
        let mut m = Module::new();
        m.print_char(c);
        assert!(m.position() >= 0 && m.position() < MODULE_STEPS_PER_REV);
        assert!(!positions.contains(&m.position()));
        positions.push(m.position());
    }
    assert_eq!(positions.len(), 37);
}

#[test]
fn flaps_are_spread_evenly() {
    let symbols: Vec<u8> = (b' '..=b' ').chain(b'A'..=b'Z').chain(b'0'..=b'9').collect();
    for c in symbols {
        let flap = Module::flap_number(c).unwrap() as i32;
        let mut m = Module::new();
        m.print_char(c);
        assert_eq!(m.position(), (2 * flap * MODULE_STEPS_PER_REV + 37) / 74, "byte {}", c);
    }
}
