use manga_fetcher::naming::{
    frame_name_with_extension, get_frame_name, get_pad_width, sanitize_name,
};
use manga_fetcher::text::{contains, ends_with, from_chars, str_eq, str_lt, to_chars};

#[test]
fn pad_width_is_the_number_of_digits() {
    assert_eq!(get_pad_width(0), 1);
    assert_eq!(get_pad_width(9), 1);
    assert_eq!(get_pad_width(10), 2);
    assert_eq!(get_pad_width(99), 2);
    assert_eq!(get_pad_width(100), 3);
    assert_eq!(get_pad_width(12345), 5);
    assert_eq!(get_pad_width(usize::MAX), usize::MAX.to_string().len());
}

#[test]
fn names_are_padded_to_the_digits_of_the_last_index() {
    assert_eq!(get_frame_name("a.png", 0, 1), "0.png");
    assert_eq!(get_frame_name("a.png", 0, 10), "0.png");
    assert_eq!(get_frame_name("a.png", 9, 10), "9.png");
    assert_eq!(get_frame_name("a.png", 0, 11), "00.png");
    assert_eq!(get_frame_name("a.png", 10, 11), "10.png");
    assert_eq!(get_frame_name("a.png", 7, 100), "07.png");
    assert_eq!(get_frame_name("a.png", 7, 101), "007.png");
    assert_eq!(get_frame_name("a.png", 999, 1000), "999.png");
    assert_eq!(get_frame_name("a.png", 42, 1000), "042.png");
}

#[test]
fn names_of_a_chapter_have_one_width_and_sort_in_page_order() {
    for total in [1usize, 2, 9, 10, 11, 99, 100, 101, 1000, 1234] {
        let width = (total - 1).to_string().len();
        let names: Vec<String> = (0..total)
            .map(|i| {
                let source = if i % 2 == 0 { "x.png" } else { "y.jpeg" };
                get_frame_name(source, i, total)
            })
            .collect();
        for (i, name) in names.iter().enumerate() {
            let dot = name.find('.').unwrap();
            assert_eq!(dot, width);
            assert_eq!(name[..dot].parse::<usize>().unwrap(), i);
        }
        let mut sorted = names.clone();
        sorted.sort();
        assert_eq!(sorted, names);
        for pair in names.windows(2) {
            assert!(str_lt(&pair[0], &pair[1]));
            assert!(!str_lt(&pair[1], &pair[0]));
        }
    }
}

#[test]
fn extension_is_that_of_the_source_file() {
    assert_eq!(get_frame_name("x1-abcdef.jpeg", 3, 20), "03.jpeg");
    assert_eq!(get_frame_name("archive.tar.gz", 3, 20), "03.gz");
    assert_eq!(get_frame_name("dir.d/page.webp", 3, 20), "03.webp");
}

#[test]
fn extension_falls_back_to_jpg() {
    assert_eq!(get_frame_name("noextension", 3, 20), "03.jpg");
    assert_eq!(get_frame_name("", 3, 20), "03.jpg");
    assert_eq!(get_frame_name(".hidden", 3, 20), "03.jpg");
    assert_eq!(get_frame_name("dir.d/page", 3, 20), "03.jpg");
    assert_eq!(frame_name_with_extension(None, 3, 20), "03.jpg");
    assert_eq!(frame_name_with_extension(Some("gif"), 3, 20), "03.gif");
    assert_eq!(frame_name_with_extension(Some(""), 3, 20), "03.");
}

#[test]
fn names_outside_a_chapter_are_still_names() {
    assert_eq!(get_frame_name("a.png", 0, 0), "0.png");
    assert_eq!(get_frame_name("a.png", 123, 5), "123.png");
}

#[test]
fn sanitized_names_are_path_components() {
    assert_eq!(sanitize_name("Vol. 1 Ch. 2 - Title"), "Vol. 1 Ch. 2 - Title");
    assert_eq!(sanitize_name("a/b\\c"), "a_b_c");
    assert_eq!(sanitize_name("what? <now>: \"this\" | *that*"), "what_ _now__ _this_ _ _that_");
    assert_eq!(sanitize_name(""), "_");
    assert_eq!(sanitize_name("."), "_");
    assert_eq!(sanitize_name(".."), "_.");
    assert_eq!(sanitize_name("../../etc"), "_._.._etc");
    assert_eq!(sanitize_name("tab\there\nnewline"), "tab_here_newline");
    assert_eq!(sanitize_name("日本語 第1話"), "日本語 第1話");
}

#[test]
fn sanitizing_twice_changes_nothing() {
    for name in ["", ".", "a/b", "plain", "..hidden", "x:y"] {
        let once = sanitize_name(name);
        assert_eq!(sanitize_name(&once), once);
    }
}

#[test]
fn text_helpers() {
    assert_eq!(to_chars("añb"), vec!['a', 'ñ', 'b']);
    assert_eq!(from_chars(&vec!['a', 'ñ', 'b']), "añb");
    assert!(str_eq("abc", "abc"));
    assert!(!str_eq("abc", "abd"));
    assert!(!str_eq("abc", "ab"));
    assert!(contains("uploads.mangadex.org", "mangadex.org"));
    assert!(contains("mangadex.org", "mangadex.org"));
    assert!(contains("anything", ""));
    assert!(contains("", ""));
    assert!(!contains("mangadex.or", "mangadex.org"));
    assert!(!contains("", "x"));
    assert!(!contains("mangadex_org", "mangadex.org"));
}

#[test]
fn ends_with_is_that_of_str() {
    let words = ["", ".", "org", ".mangadex.org", "mangadex.org", "x.mangadex.org", "é", "日本é"];
    for text in words {
        for tail in words {
            assert_eq!(ends_with(text, tail), text.ends_with(tail));
        }
    }
}

#[test]
fn lexicographic_order_is_that_of_str() {
    let words = ["", "0", "00", "01", "1", "10", "2", "a", "ab", "b", "é", "日本"];
    for a in words {
        for b in words {
            assert_eq!(str_lt(a, b), a < b);
        }
    }
}
