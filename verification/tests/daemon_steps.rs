use token_optimizer::ai_client::AiError;
use token_optimizer::daemon::{
    after_clipboard_read, after_clipboard_write, after_compression, copy_shortcut, fallback_icon_rgba,
    AfterCompress, AfterRead, CompressionOutcome, FALLBACK_ICON_SIZE,
};
use token_optimizer::hotkeys::{InputEvent, Key};
use token_optimizer::text::{decimal_string, split_str, str_eq_ignore_ascii_case, trim_str};

#[test]
fn copy_shortcut_is_ctrl_c() {
    assert_eq!(
        copy_shortcut(),
        vec![
            InputEvent::KeyPress(Key::ControlLeft),
            InputEvent::KeyPress(Key::KeyC),
            InputEvent::KeyRelease(Key::KeyC),
            InputEvent::KeyRelease(Key::ControlLeft),
        ]
    );
}

#[test]
fn empty_clipboard_is_skipped() {
    assert!(matches!(after_clipboard_read(Ok(String::new())), AfterRead::Stop(CompressionOutcome::SkippedEmpty)));
    match after_clipboard_read(Ok("x y".to_string())) {
        AfterRead::Compress(t) => assert_eq!(t, "x y"),
        other => panic!("unexpected {:?}", other),
    }
    match after_clipboard_read(Err("locked".to_string())) {
        AfterRead::Stop(CompressionOutcome::ReadFailed(e)) => assert_eq!(e, "locked"),
        other => panic!("unexpected {:?}", other),
    }
}

#[test]
fn compression_result_decides_the_write() {
    match after_compression(Ok("short".to_string())) {
        AfterCompress::Write(t) => assert_eq!(t, "short"),
        other => panic!("unexpected {:?}", other),
    }
    assert!(matches!(
        after_compression(Err(AiError::NoContent)),
        AfterCompress::Stop(CompressionOutcome::CompressFailed(AiError::NoContent))
    ));
}

#[test]
fn write_outcome_reports_byte_lengths() {
    match after_clipboard_write("héllo world", "héllo", Ok(())) {
        CompressionOutcome::Replaced { text_len, compressed_len } => {
            assert_eq!(text_len, 12);
            assert_eq!(compressed_len, 6);
        }
        other => panic!("unexpected {:?}", other),
    }
    match after_clipboard_write("a", "b", Err("busy".to_string())) {
        CompressionOutcome::WriteFailed(e) => assert_eq!(e, "busy"),
        other => panic!("unexpected {:?}", other),
    }
}

#[test]
fn fallback_icon_is_opaque_blue() {
    let px = fallback_icon_rgba(FALLBACK_ICON_SIZE);
    assert_eq!(px.len(), 16 * 16 * 4);
    for chunk in px.chunks(4) {
        assert_eq!(chunk, &[0u8, 120, 215, 255]);
    }
    assert!(fallback_icon_rgba(0).is_empty());
    assert_eq!(fallback_icon_rgba(1), vec![0u8, 120, 215, 255]);
}

#[test]
fn decimal_rendering() {
    assert_eq!(decimal_string(0), "0");
    assert_eq!(decimal_string(7), "7");
    assert_eq!(decimal_string(10), "10");
    assert_eq!(decimal_string(512), "512");
    assert_eq!(decimal_string(u32::MAX), "4294967295");
}

#[test]
fn trimming_and_splitting() {
    assert_eq!(trim_str(" \t a b \n"), "a b");
    assert_eq!(trim_str("\u{2028}x\u{205f}"), "x");
    assert_eq!(trim_str("   "), "");
    assert_eq!(split_str("a+b++c", '+'), vec!["a", "b", "", "c"]);
    assert_eq!(split_str("", '+'), vec![""]);
    assert_eq!(split_str("+", '+'), vec!["", ""]);
    assert!(str_eq_ignore_ascii_case("AlT", "alt"));
    assert!(!str_eq_ignore_ascii_case("alt ", "alt"));
    assert!(!str_eq_ignore_ascii_case("ÄLT", "ält"));
}

#[test]
fn whitespace_agrees_with_std() {
    for code in 0u32..0x3100 {
        if let Some(c) = char::from_u32(code) {
            assert_eq!(token_optimizer::text::is_white_space_char(c), c.is_whitespace(), "{:?}", c);
            let padded = format!("{c}x{c}{c}");
            assert_eq!(trim_str(&padded), padded.trim());
        }
    }
}

#[test]
fn split_and_case_agree_with_std() {
    let samples = ["", "+", "a", "Alt+C", "ctrl+alt+F13", "++x+", "é+Ö", "ALT", "alt", "aLt", "Ctrl"];
    for a in samples {
        let ours: Vec<&str> = split_str(a, '+');
        let theirs: Vec<&str> = a.split('+').collect();
        assert_eq!(ours, theirs);
        for b in samples {
            assert_eq!(str_eq_ignore_ascii_case(a, b), a.eq_ignore_ascii_case(b));
        }
    }
}
