use floatkeys::clip::{ClipEnt, ClipHistory};

fn text(s: &str) -> ClipEnt {
    let mut t: Vec<u16> = s.encode_utf16().collect();
    t.push(0);
    ClipEnt { is_img: false, text: Some(t), hbmp: 0, iw: 0, ih: 0, pinned: false }
}

fn image(h: usize) -> ClipEnt {
    ClipEnt { is_img: true, text: None, hbmp: h, iw: 10, ih: 10, pinned: false }
}

fn texts(h: &ClipHistory) -> Vec<String> {
    h.clip
        .iter()
        .map(|e| match &e.text {
            Some(t) => {
                let n = t.iter().position(|&u| u == 0).unwrap_or(t.len());
                String::from_utf16_lossy(&t[..n])
            }
            None => format!("img{}", e.hbmp),
        })
        .collect()
}

#[test]
fn newest_copy_goes_on_top() {
    let mut h = ClipHistory::new();
    assert!(h.clip_prepend(text("a")));
    assert!(h.clip_prepend(text("b")));
    assert_eq!(texts(&h), vec!["b", "a"]);
}

#[test]
fn copying_again_moves_the_entry_up() {
    let mut h = ClipHistory::new();
    h.clip_prepend(text("a"));
    h.clip_prepend(text("b"));
    h.clip_prepend(text("c"));
    assert!(h.clip_prepend(text("a")));
    assert_eq!(texts(&h), vec!["a", "c", "b"]);
    // already on top: nothing changes
    assert!(!h.clip_prepend(text("a")));
    assert_eq!(texts(&h), vec!["a", "c", "b"]);
}

#[test]
fn history_keeps_twenty_five_entries() {
    let mut h = ClipHistory::new();
    for i in 0..30 {
        h.clip_prepend(text(&format!("t{}", i)));
    }
    assert_eq!(h.clip.len(), 25);
    assert_eq!(texts(&h)[0], "t29");
    assert_eq!(texts(&h)[24], "t5");
}

#[test]
fn ninth_image_drops_the_oldest_image() {
    let mut h = ClipHistory::new();
    for i in 1..=8 {
        h.clip_prepend(image(i));
    }
    h.clip_prepend(text("x"));
    assert_eq!(h.clip_img_count(), 8);
    h.clip_prepend(image(9));
    assert_eq!(h.clip_img_count(), 8);
    assert_eq!(h.clip.len(), 9);
    assert_eq!(texts(&h)[0], "img9");
    assert!(!texts(&h).contains(&"img1".to_string()));
}

#[test]
fn pinned_entries_stay_on_top() {
    let mut h = ClipHistory::new();
    h.clip_prepend(text("a"));
    h.clip_prepend(text("b"));
    h.clip_prepend(text("c"));
    // pin "a" (third entry): it moves to the top
    h.clip_toggle_pin(2);
    assert_eq!(texts(&h), vec!["a", "c", "b"]);
    assert!(h.clip[0].pinned);
    assert_eq!(h.pin_count(), 1);
    h.clip_prepend(text("d"));
    assert_eq!(texts(&h), vec!["a", "d", "c", "b"]);
    // unpinning puts it just below the pinned entries
    h.clip_toggle_pin(0);
    assert_eq!(h.pin_count(), 0);
    assert_eq!(texts(&h), vec!["a", "d", "c", "b"]);
}

#[test]
fn clear_keeps_the_pinned_entries() {
    let mut h = ClipHistory::new();
    h.clip_prepend(text("a"));
    h.clip_prepend(text("b"));
    h.clip_toggle_pin(1);
    h.clip_prepend(text("c"));
    h.clip_off = 1;
    h.clip_clear_unpinned();
    assert_eq!(texts(&h), vec!["a"]);
    assert_eq!(h.clip_off, 0);
}

#[test]
fn clear_all_returns_image_handles() {
    let mut h = ClipHistory::new();
    h.clip_prepend(image(4));
    h.clip_prepend(text("a"));
    h.clip_prepend(image(7));
    let handles = h.clip_clear_all();
    assert!(h.clip.is_empty());
    let mut hs = handles.clone();
    hs.sort();
    // texts give 0
    assert_eq!(hs, vec![0, 4, 7]);
}

#[test]
fn history_file_round_trip() {
    let mut h = ClipHistory::new();
    h.clip_prepend(image(3));
    h.clip_prepend(text("hello"));
    h.clip_prepend(text("w\u{f6}rld"));
    h.clip_toggle_pin(1);
    let data = h.save_clip();
    let mut g = ClipHistory::new();
    g.load_clip(&data);
    // images are not stored
    assert_eq!(texts(&g), vec!["hello", "w\u{f6}rld"]);
    assert!(g.clip[0].pinned);
    assert!(!g.clip[1].pinned);
}

#[test]
fn bad_history_file_is_ignored() {
    let mut g = ClipHistory::new();
    g.load_clip(&[1, 2, 3, 4, 5, 6, 7, 8, 9, 10, 11, 12, 13]);
    assert!(g.clip.is_empty());
    g.load_clip(&[]);
    assert!(g.clip.is_empty());
}

use floatkeys::clip::fit_dims;

#[test]
fn images_are_kept_at_most_1280_pixels_on_a_side() {
    assert_eq!(fit_dims(800, 600, 1280), Some((800, 600)));
    assert_eq!(fit_dims(2560, 1440, 1280), Some((1280, 720)));
    assert_eq!(fit_dims(1000, 3000, 1280), Some((426, 1280)));
    assert_eq!(fit_dims(5000, 1, 1280), Some((1280, 1)));
    assert_eq!(fit_dims(0, 10, 1280), None);
    assert_eq!(fit_dims(10, -1, 1280), None);
}

#[test]
fn a_full_history_of_pins_refuses_new_copies() {
    let mut h = ClipHistory::new();
    for i in 0..25 {
        h.clip_prepend(text(&format!("p{}", i)));
    }
    for i in 0..25 {
        h.clip_toggle_pin(i);
    }
    assert_eq!(h.pin_count(), 25);
    let before = texts(&h);
    assert!(!h.clip_prepend(text("new")));
    assert_eq!(texts(&h), before);
}

#[test]
fn pinned_images_are_never_dropped() {
    let mut h = ClipHistory::new();
    for i in 1..=8 {
        h.clip_prepend(image(i));
    }
    for i in 0..8 {
        h.clip_toggle_pin(i);
    }
    h.clip_drop_oldest_img();
    assert_eq!(h.clip_img_count(), 8);
    assert!(!h.clip_prepend(image(9)));
    assert_eq!(h.clip.len(), 8);
    // a text still goes in
    assert!(h.clip_prepend(text("t")));
    assert_eq!(texts(&h)[8], "t");
}

#[test]
fn loading_adds_after_the_entries_already_there() {
    let mut h = ClipHistory::new();
    h.clip_prepend(text("a"));
    h.clip_prepend(text("b"));
    h.clip_toggle_pin(1);
    let data = h.save_clip();
    let mut g = ClipHistory::new();
    g.clip_prepend(text("x"));
    g.load_clip(&data);
    assert_eq!(texts(&g), vec!["x", "a", "b"]);
    // "a" is pinned in the file, but an unpinned entry comes before it here
    assert!(g.clip.iter().all(|e| !e.pinned));
}

#[test]
fn pin_moves_the_entry_to_the_border() {
    let mut h = ClipHistory::new();
    for s in ["a", "b", "c", "d"] {
        h.clip_prepend(text(s));
    }
    // d c b a: pin "b" then "a"; each becomes the last pinned entry
    h.clip_toggle_pin(2);
    assert_eq!(texts(&h), vec!["b", "d", "c", "a"]);
    h.clip_toggle_pin(3);
    assert_eq!(texts(&h), vec!["b", "a", "d", "c"]);
    assert_eq!(h.pin_count(), 2);
    // unpinning "b" makes it the first unpinned entry
    h.clip_toggle_pin(0);
    assert_eq!(texts(&h), vec!["a", "b", "d", "c"]);
    assert_eq!(h.pin_count(), 1);
    // a new copy lands right below the pinned entry
    h.clip_prepend(text("e"));
    assert_eq!(texts(&h), vec!["a", "e", "b", "d", "c"]);
}
