use splitflap::character::{Character, CHARACTER_HOME_OFFSET, CHARACTER_STEPS_PER_REV};
use splitflap::drum::ResetStep;

#[test]
fn character_flap_numbers() {
    assert_eq!(Character::flap_number(b' '), Some(0));
    assert_eq!(Character::flap_number(b'A'), Some(1));
    assert_eq!(Character::flap_number(b'z'), Some(26));
    assert_eq!(Character::flap_number(b'0'), Some(28));
    assert_eq!(Character::flap_number(b'1'), None);
    assert_eq!(Character::flap_number(b'9'), None);
    assert_eq!(Character::flap_number(b'#'), None);
}

#[test]
fn character_prints_in_full_steps() {
    let mut c = Character::new();
    assert_eq!(c.position(), 0);
    assert_eq!(c.print_char(b'A'), 56);
    assert_eq!(c.print_char(b'z'), 1440 - 56);
    assert_eq!(c.position(), 1440);
    assert_eq!(c.print_char(b'0'), 1550 - 1440);
    assert_eq!(c.print_char(b'a'), CHARACTER_STEPS_PER_REV - 1550 + 56);
    assert_eq!(c.position(), 56);
}

#[test]
fn character_reset() {
    let mut c = Character::new();
    c.print_char(b'M');
    assert_eq!(c.reset(true), ResetStep::Seek(1));
    assert_eq!(c.position(), 720);
    assert_eq!(c.reset(false), ResetStep::Home(CHARACTER_HOME_OFFSET));
    assert_eq!(CHARACTER_HOME_OFFSET, 140);
    assert_eq!(c.position(), 0);
}

#[test]
fn character_letters_ignore_case() {
    for c in b'A'..=b'Z' {
        assert_eq!(Character::flap_number(c), Character::flap_number(c + 32));
        let mut upper = Character::new();
        let mut lower = Character::new();
        assert_eq!(upper.print_char(c), lower.print_char(c + 32));
    }
}

#[test]
fn character_flaps_are_spread_evenly() {
    let symbols: Vec<u8> = (b' '..=b' ').chain(b'A'..=b'Z').chain(b'0'..=b'0').collect();
    let mut seen = Vec::new();
    for c in symbols {
        let flap = Character::flap_number(c).unwrap() as i32;
        let mut m = Character::new();
        m.print_char(c);
        assert_eq!(m.position(), (flap * CHARACTER_STEPS_PER_REV + 36) / 37, "byte {}", c);
        assert!(!seen.contains(&m.position()));
        seen.push(m.position());
    }
}
