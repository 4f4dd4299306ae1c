use spotlight::clipboard::{
    base64_encode, copy_plan, filter_keeps, image_pixels, format_relative_time, hash_str, image_entry, image_hash,
    image_size_ok, is_duplicate, is_png_bytes, list_entries, make_preview, make_subtitle, make_text_preview,
    normalize_rgba, parse_filter, paste_text, png_data_url, search_items, text_entry, text_to_keep, ClipboardFilter,
    ClipboardItem, ClipboardRow, CopyPlan, PasteStack,
};
use spotlight::search::ranking::HistoryStats;

fn png_bytes(w: u32, h: u32, px: Vec<u8>) -> Vec<u8> {
    let img = image::RgbaImage::from_raw(w, h, px).unwrap();
    let mut out = std::io::Cursor::new(Vec::new());
    img.write_to(&mut out, image::ImageFormat::Png).unwrap();
    out.into_inner()
}

fn row(id: &str, content_type: &str, pinned: i64) -> ClipboardRow {
    ClipboardRow {
        id: id.to_string(),
        content: "hello\nworld".to_string(),
        minutes_ago: 5,
        content_type: content_type.to_string(),
        width: 3,
        height: 2,
        byte_len: 2048,
        pinned,
        preview_image: Some("data:image/png;base64,AA==".to_string()),
    }
}

#[test]
fn filters_by_name() {
    assert_eq!(parse_filter("text"), ClipboardFilter::Text);
    assert_eq!(parse_filter("image"), ClipboardFilter::Image);
    assert_eq!(parse_filter("pinned"), ClipboardFilter::Pinned);
    assert_eq!(parse_filter("anything"), ClipboardFilter::All);
    assert_eq!(ClipboardFilter::default(), ClipboardFilter::All);
    assert!(filter_keeps(ClipboardFilter::Text, "text", false));
    assert!(!filter_keeps(ClipboardFilter::Text, "image", true));
    assert!(filter_keeps(ClipboardFilter::Pinned, "image", true));
    assert!(!filter_keeps(ClipboardFilter::Pinned, "text", false));
}

#[test]
fn kept_text_is_trimmed_and_bounded() {
    assert_eq!(text_to_keep("  hi there \n").as_deref(), Some("hi there"));
    assert_eq!(text_to_keep("   \n\t"), None);
    assert_eq!(text_to_keep(&"a".repeat(200_000)).map(|s| s.len()), Some(200_000));
    assert_eq!(text_to_keep(&"a".repeat(200_001)), None);
    assert!(image_size_ok(1));
    assert!(image_size_ok(8_000_000));
    assert!(!image_size_ok(0));
    assert!(!image_size_ok(8_000_001));
}

#[test]
fn duplicates_are_the_last_hash() {
    assert!(is_duplicate(&Some("abc".to_string()), "abc"));
    assert!(!is_duplicate(&Some("abc".to_string()), "abd"));
    assert!(!is_duplicate(&None, "abc"));
}

#[test]
fn hashes_depend_on_content() {
    let a = hash_str("one");
    let b = hash_str("two");
    assert_ne!(a, b);
    assert_eq!(a, hash_str("one"));
    assert!(a.chars().all(|c| c.is_ascii_hexdigit() && !c.is_ascii_uppercase()));
    let i = image_hash(&[1, 2, 3]);
    assert!(i.starts_with("img:"));
    assert_ne!(i, image_hash(&[1, 2, 4]));
}

#[test]
fn text_entries_skip_repeats() {
    let (t, h) = text_entry("  copied text ", &None).unwrap();
    assert_eq!(t, "copied text");
    assert_eq!(h, hash_str("copied text"));
    assert!(text_entry("copied text", &Some(h.clone())).is_none());
    assert!(text_entry("   ", &None).is_none());
    let h2 = image_entry(&[9, 9, 9], &None).unwrap();
    assert_eq!(h2, image_hash(&[9, 9, 9]));
    assert!(image_entry(&[9, 9, 9], &Some(h2)).is_none());
    assert!(image_entry(&[], &None).is_none());
}

#[test]
fn previews_and_subtitles() {
    assert_eq!(make_text_preview("  first line  \nsecond"), "first line");
    let long = "x".repeat(100);
    assert_eq!(make_text_preview(&long), format!("{}…", "x".repeat(90)));
    assert_eq!(make_preview("image", "/tmp/a.rgba", 2048), "Imagem (2 KB)");
    assert_eq!(make_preview("image", "", 1535), "Imagem (1 KB)");
    assert_eq!(make_preview("image", "", 1536), "Imagem (2 KB)");
    assert_eq!(make_preview("image", "", -7), "Imagem (0 KB)");
    assert_eq!(make_preview("text", "a\nb", 3), "a");
    assert_eq!(format_relative_time(0), "agora");
    assert_eq!(format_relative_time(59), "há 59 min");
    assert_eq!(format_relative_time(60), "há 1 h");
    assert_eq!(format_relative_time(24 * 60 * 3 + 5), "há 3 dias");
    assert_eq!(make_subtitle("agora", "image", 10, 640, 480), "640×480 · agora");
    assert_eq!(make_subtitle("há 2 h", "text", -3, 0, 0), "0 caracteres · há 2 h");
}

#[test]
fn list_keeps_rows_the_filter_shows() {
    let rows = vec![row("a", "text", 0), row("b", "image", 1), row("c", "text", 1)];
    let all = list_entries(rows.clone(), ClipboardFilter::All);
    assert_eq!(all.len(), 3);
    assert_eq!(all[0].preview, "hello");
    assert_eq!(all[0].subtitle, "2048 caracteres · há 5 min");
    assert_eq!(all[0].preview_image, None);
    assert_eq!(all[1].preview, "Imagem (2 KB)");
    assert_eq!(all[1].subtitle, "3×2 · há 5 min");
    assert_eq!(all[1].preview_image.as_deref(), Some("data:image/png;base64,AA=="));
    let pinned = list_entries(rows.clone(), ClipboardFilter::Pinned);
    let ids: Vec<&str> = pinned.iter().map(|i| i.id.as_str()).collect();
    assert_eq!(ids, vec!["b", "c"]);
    assert_eq!(list_entries(rows, ClipboardFilter::Image).len(), 1);
}

#[test]
fn search_finds_by_text_or_fuzzily() {
    let item = |id: &str, preview: &str, ct: &str| ClipboardItem {
        id: id.to_string(),
        preview: preview.to_string(),
        subtitle: "5 caracteres · agora".to_string(),
        content_type: ct.to_string(),
        preview_image: None,
        pinned: false,
    };
    let items = vec![item("1", "Hello", "text"), item("2", "Imagem (1 KB)", "image"), item("3", "other", "text")];
    let h = HistoryStats { entries: Vec::new() };
    let r = search_items(items.clone(), "HELLO", &h, 10, 50);
    assert_eq!(r.len(), 1);
    assert_eq!(r[0].id, "clipboard:1");
    assert_eq!(r[0].icon.as_deref(), Some("edit-copy"));
    let all = search_items(items.clone(), "", &h, 10, 2);
    assert_eq!(all.len(), 2);
    assert_eq!(all[1].icon.as_deref(), Some("image-x-generic"));
    assert!(search_items(items, "zzzz", &h, 10, 50).is_empty());
}

#[test]
fn paste_stack_holds_each_entry_once() {
    let mut s = PasteStack::new();
    assert_eq!(s.add("a", true), Ok(1));
    assert_eq!(s.add("b", true), Ok(2));
    assert_eq!(s.add("a", true), Ok(2));
    assert_eq!(s.add("zzz", false), Err("Item não encontrado".to_string()));
    assert_eq!(s.count(), 2);
    assert_eq!(s.entry_ids(), vec!["a".to_string(), "b".to_string()]);
    s.clear();
    assert_eq!(s.count(), 0);
}

#[test]
fn paste_text_joins_texts() {
    let e = |t: &str, c: &str| (t.to_string(), c.to_string());
    assert_eq!(paste_text(0, &vec![]), Err("Stack vazio".to_string()));
    assert_eq!(
        paste_text(1, &vec![e("image", "/x.rgba")]),
        Err("Stack só contém imagens — copie uma por vez".to_string())
    );
    assert_eq!(paste_text(3, &vec![e("text", "a"), e("image", "/x"), e("text", "b")]), Ok("a\n\nb".to_string()));
}

#[test]
fn base64_matches_the_standard() {
    assert_eq!(base64_encode(b""), "");
    assert_eq!(base64_encode(b"f"), "Zg==");
    assert_eq!(base64_encode(b"fo"), "Zm8=");
    assert_eq!(base64_encode(b"foo"), "Zm9v");
    assert_eq!(base64_encode(b"foobar"), "Zm9vYmFy");
    assert_eq!(base64_encode(&[0xff, 0xfe, 0xfd, 0x00]), "//79AA==");
    for n in 0..10usize {
        let data = vec![7u8; n];
        assert_eq!(base64_encode(&data).len(), 4 * ((n + 2) / 3));
    }
    assert_eq!(png_data_url(b"foo"), "data:image/png;base64,Zm9v");
}

#[test]
fn png_signature_and_pixels() {
    let png = png_bytes(2, 1, vec![1, 2, 3, 4, 5, 6, 7, 8]);
    assert!(is_png_bytes(&png));
    assert!(!is_png_bytes(b"\x89PNG"));
    let (w, h, px) = image_pixels(9, 9, &png).unwrap();
    assert_eq!((w, h), (2, 1));
    assert_eq!(px, vec![1, 2, 3, 4, 5, 6, 7, 8]);
    let mut broken = png.clone();
    broken.truncate(12);
    assert!(image_pixels(1, 1, &broken).is_none());
    assert_eq!(image_pixels(1, 1, &[1, 2, 3, 4]), Some((1, 1, vec![1, 2, 3, 4])));
    assert_eq!(image_pixels(0, 1, &[1, 2, 3, 4]), None);
    assert_eq!(normalize_rgba(7, 7, &png), Some(vec![1, 2, 3, 4, 5, 6, 7, 8]));
}

#[test]
fn raw_pixels_are_cut_to_rows() {
    assert_eq!(normalize_rgba(0, 1, &[1, 2, 3, 4]), None);
    assert_eq!(normalize_rgba(1, 1, &[1, 2, 3, 4]), Some(vec![1, 2, 3, 4]));
    // two rows of one pixel, each padded to six bytes
    assert_eq!(normalize_rgba(1, 2, &[1, 2, 3, 4, 0, 0, 5, 6, 7, 8, 0, 0]), Some(vec![1, 2, 3, 4, 5, 6, 7, 8]));
    assert_eq!(normalize_rgba(2, 2, &[1, 2, 3, 4, 5]), None);
}

#[test]
fn copy_plan_by_type() {
    match copy_plan("image", "/tmp/a.rgba".to_string(), 3, 4) {
        CopyPlan::Image { path, width, height } => {
            assert_eq!(path, "/tmp/a.rgba");
            assert_eq!((width, height), (3, 4));
        }
        _ => panic!("image expected"),
    }
    match copy_plan("text", "hi".to_string(), 0, 0) {
        CopyPlan::Text(t) => assert_eq!(t, "hi"),
        _ => panic!("text expected"),
    }
}

#[test]
fn parse_filter_reads_portuguese_names_in_any_case() {
    assert_eq!(parse_filter("Texto"), ClipboardFilter::Text);
    assert_eq!(parse_filter("IMAGENS"), ClipboardFilter::Image);
    assert_eq!(parse_filter("imagem"), ClipboardFilter::Image);
    assert_eq!(parse_filter("Fixados"), ClipboardFilter::Pinned);
    assert_eq!(parse_filter("fixado"), ClipboardFilter::Pinned);
    assert_eq!(parse_filter("Pinned"), ClipboardFilter::Pinned);
    assert_eq!(parse_filter("all"), ClipboardFilter::All);
}
