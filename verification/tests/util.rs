use std::path::Path;
use trombinoscope::util::{
    file_stem, filename_to_given_family, is_whitespace, split_given_family, MISSING_FAMILY,
};

fn names(path: &str) -> (String, String) {
    filename_to_given_family(path).unwrap()
}

#[test]
fn test_name_without_separator() {
    let (given, family) = names("123_IMG.JPEG");
    assert_eq!(given, "123_IMG");
    assert_eq!(family, "Séparer prénom du nom par un `@`");
}

#[test]
fn test_name_with_separator() {
    let (given, family) = names("John @ Smith.jpg");
    assert_eq!(given, "John");
    assert_eq!(family, "Smith");
}

#[test]
fn alice_dupont() {
    let (given, family) = names("Alice @ Dupont.jpg");
    assert_eq!(given, "Alice");
    assert_eq!(family, "Dupont");
}

#[test]
fn a_camera_name_has_no_family() {
    let (given, family) = names("IMG_0042.JPG");
    assert_eq!(given, "IMG_0042");
    assert_eq!(family, MISSING_FAMILY);
    assert_eq!(MISSING_FAMILY, "Séparer prénom du nom par un `@`");
}

#[test]
fn the_directories_of_a_path_do_not_count() {
    let (given, family) = names("classe/Complet/Zoé @ Müller.jpeg");
    assert_eq!(given, "Zoé");
    assert_eq!(family, "Müller");
    let (given, family) = names("a@b/c.jpg");
    assert_eq!(given, "c");
    assert_eq!(family, MISSING_FAMILY);
}

#[test]
fn a_path_without_a_file_name_has_no_names() {
    assert_eq!(filename_to_given_family(""), None);
    assert_eq!(filename_to_given_family(".."), None);
    assert_eq!(filename_to_given_family("/"), None);
    assert_eq!(filename_to_given_family("dir/.."), None);
}

#[test]
fn only_the_last_extension_is_taken_off() {
    let (given, family) = names("Ann @ Lee.tar.gz");
    assert_eq!(given, "Ann");
    assert_eq!(family, "Lee.tar");
    let (given, family) = names(".hidden");
    assert_eq!(given, ".hidden");
    assert_eq!(family, MISSING_FAMILY);
}

#[test]
fn the_stem_is_cut_at_each_separator() {
    assert_eq!(split_given_family("a@b@c"), ("a".to_string(), "b".to_string()));
    assert_eq!(split_given_family("a@"), ("a".to_string(), "".to_string()));
    assert_eq!(split_given_family("@b"), ("".to_string(), "b".to_string()));
    assert_eq!(split_given_family("@"), ("".to_string(), "".to_string()));
    assert_eq!(split_given_family("@@"), ("".to_string(), "".to_string()));
    assert_eq!(split_given_family(""), ("".to_string(), MISSING_FAMILY.to_string()));
    assert_eq!(split_given_family("solo"), ("solo".to_string(), MISSING_FAMILY.to_string()));
}

#[test]
fn white_space_around_a_name_goes_and_inside_it_stays() {
    assert_eq!(
        split_given_family("  Jean  Luc \t@\u{a0} De  La Tour \u{3000}"),
        ("Jean  Luc".to_string(), "De  La Tour".to_string())
    );
    assert_eq!(split_given_family("   @   "), ("".to_string(), "".to_string()));
    assert_eq!(split_given_family("   "), ("".to_string(), MISSING_FAMILY.to_string()));
    assert_eq!(split_given_family(" x "), ("x".to_string(), MISSING_FAMILY.to_string()));
}

#[test]
fn splitting_agrees_with_split_and_trim() {
    let stems = [
        "John @ Smith",
        "a@b@c@d",
        " \u{2003}é @\u{2028}ü\u{85}",
        "no separator here",
        "@@@",
        "",
        "   lead@trail   ",
        "\u{feff}x@y\u{200b}",
    ];
    for stem in stems {
        let mut pieces = stem.split('@');
        let given = pieces.next().unwrap().trim().to_string();
        let family = match pieces.next() {
            Some(piece) => piece.trim().to_string(),
            None => MISSING_FAMILY.to_string(),
        };
        assert_eq!(split_given_family(stem), (given, family));
    }
}

#[test]
fn white_space_is_what_the_language_calls_white_space() {
    for code in 0..=0x10ffffu32 {
        if let Some(c) = char::from_u32(code) {
            assert_eq!(is_whitespace(c), c.is_whitespace(), "U+{:04X}", code);
        }
    }
}

#[test]
fn the_stem_is_the_name_without_its_last_extension() {
    assert_eq!(file_stem("John @ Smith.jpg"), "John @ Smith");
    assert_eq!(file_stem("archive.tar.gz"), "archive.tar");
    assert_eq!(file_stem("plain"), "plain");
    assert_eq!(file_stem(".hidden"), ".hidden");
    assert_eq!(file_stem(".hidden.txt"), ".hidden");
    assert_eq!(file_stem("trailing."), "trailing");
    assert_eq!(file_stem("a..b"), "a.");
    assert_eq!(file_stem("é.è"), "é");
    assert_eq!(file_stem(""), "");
}

#[test]
fn the_stem_is_what_the_language_calls_the_stem() {
    let names = [
        "John @ Smith.jpg",
        "archive.tar.gz",
        "plain",
        ".hidden",
        ".hidden.txt",
        "trailing.",
        "a..b",
        "...",
        ".a.",
        "x.y.z.",
        "é.è",
        "日本語.jpeg",
        " . ",
        "@.@",
    ];
    for name in names {
        let expected = Path::new(name).file_stem().unwrap().to_str().unwrap();
        assert_eq!(file_stem(name), expected, "{:?}", name);
        let from_path = filename_to_given_family(&format!("some/dir/{}", name)).unwrap();
        assert_eq!(from_path, split_given_family(expected), "{:?}", name);
    }
}
