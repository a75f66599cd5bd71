use floatkeys::dict::{edit_dist_cap, edit_dist_cap_codes, load_bigram, parse_dict, str_codes, bigram_lookup, BigramRec};
use floatkeys::keys::{auto_name, char_to_vk, key_name, mod_vk, is_repeatable, rgb, loword, hiword, get_x_lparam, get_y_lparam,
    VK_F1, VK_RETURN, VK_BACK, VK_SHIFT, VK_CONTROL, VK_MENU, VK_LWIN, VK_SPACE, VK_LEFT};
use floatkeys::text::{lossy_units, set_units, set_wstr, trim_units, units_zeq, wbuf8, wstr_eq, zero_prefix};

fn units(s: &str) -> Vec<u16> {
    s.encode_utf16().collect()
}

#[test]
fn parse_dict_keeps_lowercased_letter_words() {
    let out = parse_dict(b"Hello 123\nworld\tx\nbad1\n\ndon't\r\n");
    let words: Vec<&[u8]> = out.iter().map(|w| w.as_slice()).collect();
    assert_eq!(words, vec![&b"hello"[..], &b"world"[..], &b"don't"[..]]);
}

#[test]
fn parse_dict_rejects_other_letters_and_long_words() {
    let out = parse_dict("caf\u{e9}\nabcdefghijklmnopqrstuvwxyzabcdefgh\nok".as_bytes());
    assert_eq!(out.len(), 1);
    assert_eq!(out[0], b"ok".to_vec());
}

#[test]
fn parse_dict_empty_input() {
    assert!(parse_dict(b"").is_empty());
}

#[test]
fn edit_distance_examples() {
    assert_eq!(edit_dist_cap("teh", "the", 2), 1);
    assert_eq!(edit_dist_cap("kitten", "sitting", 3), 3);
    assert_eq!(edit_dist_cap("kitten", "sitting", 2), 3);
    assert_eq!(edit_dist_cap("same", "same", 1), 0);
    assert_eq!(edit_dist_cap("a", "abcd", 2), 3);
    assert_eq!(edit_dist_cap("", "ab", 2), 2);
}

#[test]
fn edit_distance_on_codes() {
    let a = str_codes("abc");
    assert_eq!(a, vec![97, 98, 99]);
    let b = str_codes("acb");
    assert_eq!(edit_dist_cap_codes(&a, &b, 2), 1);
}

#[test]
fn bigram_table_loading() {
    let t = load_bigram(&[1, 0, 2, 0, 1, 0, 5, 0]);
    assert_eq!(t.len(), 2);
    assert_eq!((t[0].prev, t[0].next), (1, 2));
    assert_eq!((t[1].prev, t[1].next), (1, 5));
    assert!(load_bigram(&[1, 0, 2]).is_empty());
    assert!(load_bigram(&[]).is_empty());
    // an index past the dictionary's limit makes the whole table unusable
    assert!(load_bigram(&[0x60, 0xEA, 0, 0]).is_empty());
}

#[test]
fn bigram_followers_of_a_word() {
    let t: Vec<BigramRec> = load_bigram(&[0, 0, 3, 0, 1, 0, 2, 0, 1, 0, 0, 0, 2, 0, 1, 0]);
    let next = bigram_lookup(&t, 4, 1);
    assert_eq!(next, vec![2, 0]);
    assert!(bigram_lookup(&t, 4, 3).is_empty());
}

#[test]
fn shortcut_names() {
    assert_eq!(auto_name(0x3, b'C' as u32), units("C+S+C"));
    assert_eq!(auto_name(0xC, VK_F1), units("A+W+F1"));
    assert_eq!(auto_name(0, VK_RETURN), units("Ent"));
    assert_eq!(key_name(VK_BACK), units("Bksp"));
    assert_eq!(key_name(VK_F1 + 11), units("F12"));
    assert_eq!(key_name(b'7' as u32), units("7"));
}

#[test]
fn modifier_keys_and_repeat() {
    assert_eq!(mod_vk(0), VK_SHIFT);
    assert_eq!(mod_vk(1), VK_CONTROL);
    assert_eq!(mod_vk(2), VK_MENU);
    assert_eq!(mod_vk(3), VK_LWIN);
    assert!(is_repeatable(VK_BACK));
    assert!(is_repeatable(VK_SPACE));
    assert!(is_repeatable(VK_LEFT));
    assert!(!is_repeatable(VK_RETURN));
}

#[test]
fn characters_to_keys() {
    assert_eq!(char_to_vk(b'a' as u16), b'A' as u32);
    assert_eq!(char_to_vk(b'Z' as u16), b'Z' as u32);
    assert_eq!(char_to_vk(b'5' as u16), b'5' as u32);
}

#[test]
fn message_words() {
    assert_eq!(rgb(1, 2, 3), 0x030201);
    assert_eq!(loword(0x0012_0034), 0x34);
    assert_eq!(hiword(0x0012_0034), 0x12);
    assert_eq!(get_x_lparam(0x0005_FFFE), -2);
    assert_eq!(get_y_lparam(0xFFFF_0005u32 as isize), -1);
}

#[test]
fn zero_terminated_buffers() {
    let mut buf = [7u16; 4];
    set_units(&mut buf, &units("abcdef"));
    assert_eq!(buf, [97, 98, 99, 0]);
    set_wstr(&mut buf, "z");
    assert_eq!(buf, [122, 0, 0, 0]);
    assert_eq!(wbuf8("Fn"), [70, 110, 0, 0, 0, 0, 0, 0]);
    assert!(wstr_eq(&[70, 110, 0, 9], "Fn"));
    assert!(!wstr_eq(&[70, 0], "Fn"));
    assert!(units_zeq(&[1, 2, 0, 5], &[1, 2, 0]));
    assert_eq!(zero_prefix(&[5, 6, 0, 7]), vec![5, 6]);
}

#[test]
fn lossy_text_and_trimming() {
    assert_eq!(lossy_units(&[0x41, 0xD800, 0x42]), vec![0x41, 0xFFFD, 0x42]);
    assert_eq!(lossy_units(&[0xD83D, 0xDE00]), vec![0xD83D, 0xDE00]);
    assert_eq!(lossy_units(&[0xDC00]), vec![0xFFFD]);
    assert_eq!(trim_units(&units("  ab c \t")), units("ab c"));
    assert!(trim_units(&units("   ")).is_empty());
}

use floatkeys::text::utf16_units;

#[test]
fn utf16_of_strings() {
    assert_eq!(utf16_units("aé"), vec![0x61, 0xE9]);
    assert_eq!(utf16_units("\u{1F600}"), vec![0xD83D, 0xDE00]);
    assert!(utf16_units("").is_empty());
}

#[test]
fn distance_is_the_same_both_ways_within_the_cap() {
    assert_eq!(edit_dist_cap("abcd", "acbd", 2), edit_dist_cap("acbd", "abcd", 2));
    assert_eq!(edit_dist_cap("word", "world", 1), 1);
    assert_eq!(edit_dist_cap("world", "word", 1), 1);
    assert_eq!(edit_dist_cap("word", "world", 3), 1);
}

#[test]
fn word_files_join_line_by_line() {
    let a = parse_dict(b"one\ntwo");
    let b = parse_dict(b"three\n");
    let ab = parse_dict(b"one\ntwo\nthree\n");
    let mut both = a.clone();
    both.extend(b);
    assert_eq!(ab, both);
}
