use alg2a_tools::ui::input::InputBuffer;

fn text(b: &InputBuffer) -> String {
    b.as_str().to_string()
}

#[test]
fn digits_and_capacity() {
    let mut b = InputBuffer::new();
    assert_eq!(text(&b), "");
    for d in 0..20u8 {
        b.push_digit(d % 10);
    }
    assert_eq!(b.len, 15);
    assert_eq!(text(&b), "012345678901234");
}

#[test]
fn dot_only_once() {
    let mut b = InputBuffer::new();
    b.push_digit(1);
    b.push_dot();
    b.push_digit(5);
    b.push_dot();
    assert_eq!(text(&b), "1.5");
    b.push_dot();
    assert_eq!(text(&b), "1.5");
}

#[test]
fn toggle_sign_cases() {
    let mut b = InputBuffer::new();
    b.toggle_sign();
    assert_eq!(text(&b), "-");
    b.toggle_sign();
    assert_eq!(text(&b), "");
    b.push_digit(4);
    b.push_digit(2);
    b.toggle_sign();
    assert_eq!(text(&b), "-42");
    b.toggle_sign();
    assert_eq!(text(&b), "42");
}

#[test]
fn toggle_sign_on_full_buffer() {
    let mut b = InputBuffer::new();
    for _ in 0..15 {
        b.push_digit(9);
    }
    b.toggle_sign();
    assert_eq!(text(&b), "999999999999999");
    let mut c = InputBuffer::new();
    c.toggle_sign();
    for _ in 0..14 {
        c.push_digit(1);
    }
    assert_eq!(c.len, 15);
    c.toggle_sign();
    assert_eq!(text(&c), "11111111111111");
}

#[test]
fn toggle_twice_restores_unless_double_minus() {
    let samples: [&[u8]; 5] = [b"", b"-", b"12.5", b"-7", b"3"];
    for s in samples {
        let mut b = InputBuffer::new();
        for &c in s {
            b.push_char(c);
        }
        let before = text(&b);
        b.toggle_sign();
        b.toggle_sign();
        assert_eq!(text(&b), before);
    }
    let mut b = InputBuffer::new();
    b.push_char(b'-');
    b.push_char(b'-');
    b.toggle_sign();
    b.toggle_sign();
    assert_eq!(text(&b), "");
}

#[test]
fn backspace_undoes_digit() {
    let mut b = InputBuffer::new();
    b.push_digit(3);
    b.push_digit(1);
    let before = text(&b);
    b.push_digit(7);
    b.backspace();
    assert_eq!(text(&b), before);
    b.backspace();
    b.backspace();
    b.backspace();
    assert_eq!(text(&b), "");
    assert_eq!(b.len, 0);
}

#[test]
fn clear_empties() {
    let mut b = InputBuffer::default();
    b.push_digit(5);
    b.clear();
    assert_eq!(text(&b), "");
}

#[test]
fn invalid_utf8_reads_as_zero() {
    let mut b = InputBuffer::new();
    b.push_digit(100);
    assert_eq!(b.buf[0], 148);
    assert_eq!(text(&b), "0");
    b.push_dot();
    b.push_dot();
    assert_eq!(b.len, 3);
}
