use splitflap::display::Display;
use splitflap::drum::ResetStep;
use splitflap::module::Module;

fn three_module_display() -> Display<3> {
    let mut d: Display<3> = Display::new(Vec::new());
    assert!(d.add_module());
    assert!(d.add_module());
    assert!(d.add_module());
    d
}

#[test]
fn add_module_until_full() {
    let mut d = three_module_display();
    assert_eq!(d.len(), 3);
    assert!(!d.add_module());
    assert_eq!(d.len(), 3);
}

#[test]
fn print_word_longer_than_display_shows_first_letters() {
    let mut d = three_module_display();
    assert_eq!(d.print_word(b"HELLO"), vec![886, 554, 1328]);
    assert_eq!(d.len(), 3);
}

#[test]
fn print_word_shorter_than_display_leaves_the_rest() {
    let mut d = three_module_display();
    d.print_word(b"ABC");
    assert_eq!(d.print_word(b"b"), vec![110]);
    // The second and third modules still show B and C: showing them again costs nothing.
    assert_eq!(d.print_word(b"BBC"), vec![0, 0, 0]);
}

#[test]
fn print_word_empty() {
    let mut d = three_module_display();
    assert_eq!(d.print_word(b""), Vec::<i32>::new());
}

#[test]
fn display_from_given_modules() {
    let mut m = Module::new();
    m.print_char(b'Y');
    let mut d: Display<2> = Display::new(vec![m]);
    assert_eq!(d.len(), 1);
    assert_eq!(d.print_word(b"Y"), vec![0]);
}

#[test]
fn display_reset_one_module() {
    let mut d = three_module_display();
    d.print_word(b"XYZ");
    assert_eq!(d.reset(1, true), ResetStep::Seek(1));
    assert_eq!(d.reset(1, false), ResetStep::Home(280));
    // Module 1 is at home, the others are untouched.
    assert_eq!(d.print_word(b"XAZ"), vec![0, 111, 0]);
}
