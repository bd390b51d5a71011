use toiletcli::colors::{Color, NameKind, Style, StyleBuilder, TerminalStyle, UnderlineStyle};
use toiletcli::common::{
    colors_enabled, name_from_path, name_from_path_with, underline_supported_by,
};
use toiletcli::escapes;
use toiletcli::lines;

#[test]
fn rgb_conversion() {
    assert_eq!(Color::RGB(255, 0, 0).byte(), 196);
    assert_eq!(Color::RGB(0, 255, 0).byte(), 46);
    assert_eq!(Color::RGB(0, 0, 255).byte(), 21);
}

#[test]
fn program_name() {
    let path = "toilet/bin/program";
    let name = name_from_path(&path.to_string());

    assert_eq!(name, "program");
}

#[test]
fn name_from_path_edges() {
    assert_eq!(name_from_path(&"program".to_string()), "program");
    assert_eq!(name_from_path(&"dir/".to_string()), "");
    assert_eq!(name_from_path(&"/usr/bin/é".to_string()), "é");
    assert_eq!(name_from_path(&"".to_string()), "");
    assert_eq!(name_from_path(&"a\\b".to_string()), "a\\b");
}

#[test]
fn name_from_path_with_separators() {
    let path = "toilet\\bin/x\\program.exe".to_string();
    assert_eq!(name_from_path_with(&path, "\\/"), "program.exe");
    assert_eq!(name_from_path_with(&path, "/"), "x\\program.exe");
    assert_eq!(name_from_path_with(&path, ""), path);
}

#[test]
fn color_bytes() {
    assert_eq!(Color::Byte(93).byte(), 93);
    assert_eq!(Color::Red.byte(), 1);
    assert_eq!(Color::BrightWhite.byte(), 15);
    assert_eq!(Color::RGB(128, 128, 128).byte(), 16 + 3 * 36 + 3 * 6 + 3);
}

#[test]
fn color_from_byte() {
    assert_eq!(Color::from(3u8), Color::Yellow);
    assert_eq!(Color::from(12u8), Color::BrightBlue);
    assert_eq!(Color::from(16u8), Color::Byte(16));
}

#[test]
fn color_sequences() {
    assert_eq!(Color::Red.fg(), "\u{1b}[31m");
    assert_eq!(Color::BrightRed.fg(), "\u{1b}[91m");
    assert_eq!(Color::Blue.bg(), "\u{1b}[44m");
    assert_eq!(Color::BrightCyan.bg(), "\u{1b}[106m");
    assert_eq!(Color::Byte(93).fg(), "\u{1b}[38;5;93m");
    assert_eq!(Color::RGB(1, 22, 255).bg(), "\u{1b}[48;2;1;22;255m");
    assert_eq!(Color::RGB(0, 255, 0).ul(), "\u{1b}[58;2;0;255;0m");
    assert_eq!(Color::Green.ul(), "\u{1b}[58;5;2m");
    assert_eq!(Color::Reset.fg(), "\u{1b}[39m");
    assert_eq!(Color::Reset.bg(), "\u{1b}[49m");
    assert_eq!(Color::Reset.ul(), "\u{1b}[59m");
    assert_eq!(Color::Nothing.fg(), "");
    assert_eq!(Color::Nothing.to_ansi(), "");
    assert_eq!(Color::Yellow.to_ansi(), "\u{1b}[33m");
    assert_eq!(Color::default(), Color::Nothing);
}

#[test]
fn color_names() {
    assert_eq!(Color::from_name("red"), Ok(Color::Red));
    assert_eq!(Color::from_name("bright red"), Ok(Color::BrightRed));
    assert_eq!(Color::from_name("bright-blue"), Ok(Color::BrightBlue));
    assert_eq!(Color::from_name("bright_white"), Ok(Color::BrightWhite));
    assert_eq!(Color::from_name("gray"), Ok(Color::BrightBlack));
    assert_eq!(Color::from_name("none"), Ok(Color::Nothing));
    assert_eq!(Color::from_name("21"), Ok(Color::Byte(21)));
    assert_eq!(Color::from_name("3"), Ok(Color::Yellow));
    assert_eq!(Color::from_name("+255"), Ok(Color::Byte(255)));
    let err = Color::from_name("256").unwrap_err();
    assert_eq!(err.kind, NameKind::Color);
    assert_eq!(err.name, "256");
    assert_eq!(err.message(), "Unknown color '256'");
    assert!(Color::from_name("Red").is_err());
    assert!(Color::from_name("brightred").is_err());
    assert!(Color::from_name("").is_err());
    assert_eq!("bright yellow".parse::<Color>(), Ok(Color::BrightYellow));
    assert_eq!("ITALIC".parse::<Style>(), Ok(Style::Italic));
    assert_eq!("Dotted".parse::<UnderlineStyle>(), Ok(UnderlineStyle::Dotted));
}

#[test]
fn styles() {
    assert_eq!(Style::Bold.to_ansi(), "\u{1b}[1m");
    assert_eq!(Style::ResetStrikethrough.to_ansi(), "\u{1b}[29m");
    assert_eq!(Style::Nothing.to_ansi(), "");
    assert_eq!(Style::Italic.code(), "3");
    assert_eq!(Style::default(), Style::Nothing);
    assert_eq!(Style::from_name("BOLD"), Ok(Style::Bold));
    assert_eq!(Style::from_name("Crossed"), Ok(Style::Strikethrough));
    assert_eq!(Style::from_name("default"), Ok(Style::Reset));
    assert_eq!(Style::from_lowercase_name("underline"), Some(Style::Underlined));
    assert_eq!(Style::from_lowercase_name("BOLD"), None);
    let err = Style::from_name("Blink").unwrap_err();
    assert_eq!(err.kind, NameKind::Style);
    assert_eq!(err.message(), "Unknown style 'Blink'");
}

#[test]
fn underline_styles() {
    assert_eq!(UnderlineStyle::Curly.code(), "4:3");
    assert_eq!(UnderlineStyle::Dashed.to_ansi(), "\u{1b}[4:5m");
    assert_eq!(UnderlineStyle::default(), UnderlineStyle::Straight);
    assert_eq!(UnderlineStyle::from_name("DOUBLE"), Ok(UnderlineStyle::Double));
    assert_eq!(UnderlineStyle::from_name("default"), Ok(UnderlineStyle::Straight));
    let err = UnderlineStyle::from_name("wavy").unwrap_err();
    assert_eq!(err.kind, NameKind::UnderlineStyle);
    assert_eq!(err.message(), "Unknown underline style 'wavy'");
}

#[test]
fn style_builder() {
    let style = StyleBuilder::new()
        .foreground(Color::Byte(93))
        .add_style(Style::Underlined)
        .underline_color(Color::RGB(0, 255, 0), true)
        .underline_style(UnderlineStyle::Curly, true)
        .build();
    assert_eq!(style.codes(), "38;5;93;4;58;2;0;255;0;4:3");
    assert_eq!(style.to_ansi(), "\u{1b}[38;5;93;4;58;2;0;255;0;4:3m");

    let plain = StyleBuilder::new()
        .background(Color::Red)
        .underline_color(Color::Red, false)
        .underline_style(UnderlineStyle::Curly, false)
        .build();
    assert_eq!(plain.to_ansi(), "\u{1b}[41m");

    let empty = StyleBuilder::new().foreground(Color::Nothing).build();
    assert_eq!(empty.to_ansi(), "");
    assert_eq!(TerminalStyle::default().codes(), "");
}

#[test]
fn escape_sequences() {
    assert_eq!(escapes::System::ResetState.to_ansi(), "\u{1b}c");
    assert_eq!(escapes::System::SetTitle("hi").to_ansi(), "\u{1b}]0;hi\u{7}");
    assert_eq!(escapes::Cursor::Goto(12, 345).to_ansi(), "\u{1b}[12;345H");
    assert_eq!(escapes::Cursor::Column(7).code(), "7G");
    assert_eq!(escapes::Cursor::Up(0).code(), "0A");
    assert_eq!(escapes::Cursor::Save.code(), "s");
    assert_eq!(escapes::Line::Down(4294967295).code(), "4294967295F");
    assert_eq!(escapes::Line::Home.to_ansi(), "\u{1b}[0G");
    assert_eq!(escapes::Erase::After(10).to_ansi(), "\u{1b}[10@");
    assert_eq!(escapes::Erase::WholeScreen.code(), "3J");
}

#[test]
fn line_sequences() {
    assert_eq!(lines::Cursor::Up.to_ansi(), "\u{1b}[1A");
    assert_eq!(lines::Cursor::Position(80).to_ansi(), "\u{1b}[80G");
    assert_eq!(lines::Line::Previous.code(), "1F");
    assert_eq!(lines::Line::Up(2).code(), "2E");
    assert_eq!(lines::Erase::LineBefore.to_ansi(), "\u{1b}[1K");
}

#[test]
fn underline_support() {
    assert!(underline_supported_by(Some("kitty"), None));
    assert!(underline_supported_by(Some("/usr/bin/alacritty"), Some("xterm")));
    assert!(underline_supported_by(None, Some("xterm-ghostty")));
    assert!(!underline_supported_by(Some("xterm"), Some("xterm-256color")));
    assert!(!underline_supported_by(None, None));
}

#[test]
fn color_decision() {
    assert!(colors_enabled(true, true, false, Some("xterm")));
    assert!(colors_enabled(true, true, false, None));
    assert!(!colors_enabled(true, true, false, Some("dumb")));
    assert!(!colors_enabled(true, true, true, Some("xterm")));
    assert!(!colors_enabled(false, true, false, None));
    assert!(!colors_enabled(true, false, false, None));
}
