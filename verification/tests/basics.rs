use glassbar::autostart::{disable, enable, is_enabled, quoted_exe, RUN_KEY, VALUE};
use glassbar::counter::advance;
use glassbar::text::{hex, push_decimal, push_hex, push_hex_padded, utf16_lossy, wide};
use glassbar::wire::{decode_wide_buffer, read_u32, read_u64, read_wstr};

#[test]
fn the_executable_is_quoted() {
    assert_eq!(quoted_exe("C:\\Program Files\\glassbar.exe"), "\"C:\\Program Files\\glassbar.exe\"");
    assert_eq!(quoted_exe(""), "\"\"");
    assert_eq!(RUN_KEY, r"Software\Microsoft\Windows\CurrentVersion\Run");
    assert_eq!(VALUE, "glassbar");
}

#[test]
fn enabling_overwrites_and_disabling_removes_the_entry() {
    let mut entry = Some("\"D:\\old\\glassbar.exe\"".to_string());
    for _ in 0..2 {
        enable(&mut entry, "C:\\Glass Bar\\glassbar.exe");
        assert_eq!(entry.as_deref(), Some("\"C:\\Glass Bar\\glassbar.exe\""));
        assert!(is_enabled(&entry));
    }
    for _ in 0..2 {
        disable(&mut entry);
        assert_eq!(entry, None);
        assert!(!is_enabled(&entry));
    }
    enable(&mut entry, "a.exe");
    assert_eq!(entry.as_deref(), Some("\"a.exe\""));
}

#[test]
fn counters_go_on_past_their_end() {
    assert_eq!(advance(0), 1);
    assert_eq!(advance(u64::MAX), 0);
}

#[test]
fn numerals_are_written_out() {
    let mut s = String::new();
    push_decimal(&mut s, 0);
    s.push(' ');
    push_decimal(&mut s, -1234567890123456789);
    s.push(' ');
    push_hex(&mut s, 0xdead_beef);
    s.push(' ');
    push_hex_padded(&mut s, 0xab, 8, true);
    s.push(' ');
    push_hex_padded(&mut s, 0x12345, 2, false);
    assert_eq!(s, "0 -1234567890123456789 deadbeef 000000AB 12345");
}

#[test]
fn dumps_are_grouped_by_eight_bytes() {
    assert_eq!(hex(&[]), "");
    assert_eq!(hex(&[0, 255]), "00ff");
    assert_eq!(hex(&[1, 2, 3, 4, 5, 6, 7, 8, 9]), "0102030405060708 09");
}

#[test]
fn wide_text_ends_with_a_nul() {
    assert_eq!(wide("Ab"), vec![0x41, 0x62, 0]);
    assert_eq!(wide("\u{1F600}"), vec![0xd83d, 0xde00, 0]);
    assert_eq!(wide(""), vec![0]);
}

#[test]
fn wide_text_is_decoded_with_replacements() {
    assert_eq!(utf16_lossy(&[0x41, 0xe4]), "A\u{e4}");
    assert_eq!(utf16_lossy(&[0xd83d, 0xde00]), "\u{1F600}");
    assert_eq!(utf16_lossy(&[0xd83d]), "\u{FFFD}");
    assert_eq!(utf16_lossy(&[0xde00, 0x41]), "\u{FFFD}A");
    assert_eq!(utf16_lossy(&[0xd83d, 0x41]), "\u{FFFD}A");
    assert_eq!(utf16_lossy(&[0xd83d, 0xd83d, 0xde00]), "\u{FFFD}\u{1F600}");
    assert_eq!(utf16_lossy(&[0xffff]), "\u{ffff}");
    for units in [[0xd800u16, 0xdbff, 0xdfff], [0xdc00, 0xd800, 0x20], [0x20, 0xdfff, 0xd801]] {
        assert_eq!(utf16_lossy(&units), String::from_utf16_lossy(&units));
    }
}

#[test]
fn words_are_little_endian() {
    let buf = [1, 2, 3, 4, 5, 6, 7, 8];
    assert_eq!(read_u32(&buf, 0), Some(0x0403_0201));
    assert_eq!(read_u32(&buf, 4), Some(0x0807_0605));
    assert_eq!(read_u32(&buf, 5), None);
    assert_eq!(read_u32(&buf, usize::MAX), None);
    assert_eq!(read_u64(&buf, 0), Some(0x0807_0605_0403_0201));
    assert_eq!(read_u64(&buf, 1), None);
    assert_eq!(read_u64(&buf, usize::MAX), None);
}

#[test]
fn wide_fields_end_at_a_nul_or_the_limit() {
    let buf = [0x41, 0, 0x42, 0, 0, 0, 0x43, 0, 0x44];
    assert_eq!(read_wstr(&buf, 0, 128), "AB");
    assert_eq!(read_wstr(&buf, 0, 1), "A");
    assert_eq!(read_wstr(&buf, 6, 128), "C");
    assert_eq!(read_wstr(&buf, 100, 128), "");
    assert_eq!(decode_wide_buffer(&buf), "AB\0C");
}
