use chat_relay::input::{is_whitespace, read_command, trim, Command, QUIT};

#[test]
fn quit_is_the_sentinel() {
    assert_eq!(QUIT, ":quit");
    assert_eq!(read_command(":quit"), Command::Quit);
}

#[test]
fn quit_with_line_end_or_spaces_around_it() {
    assert_eq!(read_command(":quit\n"), Command::Quit);
    assert_eq!(read_command(":quit\r\n"), Command::Quit);
    assert_eq!(read_command("  :quit \t"), Command::Quit);
    assert_eq!(read_command("\u{3000}:quit\u{a0}"), Command::Quit);
}

#[test]
fn other_lines_are_messages() {
    assert_eq!(read_command("hello\n"), Command::Send("hello".to_string()));
    assert_eq!(read_command(":quit now\n"), Command::Send(":quit now".to_string()));
    assert_eq!(read_command("quit\n"), Command::Send("quit".to_string()));
    assert_eq!(read_command(":QUIT\n"), Command::Send(":QUIT".to_string()));
    assert_eq!(read_command(": quit\n"), Command::Send(": quit".to_string()));
    assert_eq!(read_command(":quit:quit"), Command::Send(":quit:quit".to_string()));
    assert_eq!(read_command(":qui"), Command::Send(":qui".to_string()));
}

#[test]
fn empty_line_is_an_empty_message() {
    assert_eq!(read_command(""), Command::Send(String::new()));
    assert_eq!(read_command("\n"), Command::Send(String::new()));
    assert_eq!(read_command("   \t \r\n"), Command::Send(String::new()));
}

#[test]
fn message_keeps_inner_white_space() {
    assert_eq!(read_command("  a  b \n"), Command::Send("a  b".to_string()));
    assert_eq!(read_command("one\ttwo\n"), Command::Send("one\ttwo".to_string()));
}

#[test]
fn trim_strips_both_ends() {
    assert_eq!(trim("  hello  "), "hello");
    assert_eq!(trim("hello"), "hello");
    assert_eq!(trim("\n\thello world\r\n"), "hello world");
    assert_eq!(trim(""), "");
    assert_eq!(trim(" \n "), "");
    assert_eq!(trim(" x"), "x");
    assert_eq!(trim("x "), "x");
    assert_eq!(trim("\u{2003}h\u{e9}llo \u{4e16}\u{754c}\u{2028}"), "h\u{e9}llo \u{4e16}\u{754c}");
}

#[test]
fn trim_leaves_look_alikes_in_place() {
    assert_eq!(trim("\u{200b}x\u{200b}"), "\u{200b}x\u{200b}");
    assert_eq!(trim("\u{180e}x"), "\u{180e}x");
    assert_eq!(trim("\u{feff}x"), "\u{feff}x");
    assert_eq!(trim("\0x\0"), "\0x\0");
}

#[test]
fn white_space_is_the_unicode_property() {
    let mut count = 0;
    for code in 0u32..=0x10ffff {
        if let Some(c) = char::from_u32(code) {
            assert_eq!(is_whitespace(c), c.is_whitespace(), "U+{:04X}", code);
            if is_whitespace(c) {
                count += 1;
            }
        }
    }
    assert_eq!(count, 25);
}

#[test]
fn trim_agrees_with_the_standard_library() {
    for code in 0u32..=0x10ffff {
        if let Some(c) = char::from_u32(code) {
            let mut line = String::new();
            line.push(c);
            line.push_str("a b");
            line.push(c);
            assert_eq!(trim(&line), line.trim(), "U+{:04X}", code);
        }
    }
}
