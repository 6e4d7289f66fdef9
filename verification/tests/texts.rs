use yadl::text::{contains, decimal_text, is_white_space, parse_u64, truncate};
use yadl::url::{cloud_url, query_param, short_url_of};

#[test]
fn truncate_counts_characters() {
    assert_eq!(truncate("привет", 3), "при");
    assert_eq!(truncate("привет", 6), "привет");
    assert_eq!(truncate("привет", 300), "привет");
    assert_eq!(truncate("abc", 0), "");
    assert_eq!(truncate("", 5), "");
}

#[test]
fn contains_finds_substrings() {
    assert!(contains("DiskSymlinkPasswordRequiredError", "PasswordRequired"));
    assert!(contains("PasswordRequired", "PasswordRequired"));
    assert!(!contains("PasswordRequire", "PasswordRequired"));
    assert!(contains("aab", "ab"));
    assert!(contains("", ""));
    assert!(!contains("", "a"));
}

#[test]
fn white_space_is_that_of_unicode() {
    for code in 0..=0x10ffffu32 {
        if let Some(c) = char::from_u32(code) {
            assert_eq!(is_white_space(c), c.is_whitespace(), "{:x}", code);
        }
    }
}

#[test]
fn decimal_numerals() {
    assert_eq!(decimal_text(0), "0");
    assert_eq!(decimal_text(10), "10");
    assert_eq!(decimal_text(9075), "9075");
    assert_eq!(decimal_text(u64::MAX), "18446744073709551615");
}

#[test]
fn numbers_are_read_as_by_std() {
    for s in [
        "0", "1", "007", "+5", "+", "", "-0", "-1", " 1", "1 ", "1_0", "12a", "18446744073709551615",
        "18446744073709551616", "99999999999999999999999", "++1", "٣",
    ] {
        assert_eq!(parse_u64(s), s.parse::<u64>().ok(), "{:?}", s);
    }
    assert_eq!(parse_u64("1234"), Some(1234));
}

#[test]
fn decimal_round_trip() {
    for n in [0, 1, 9, 10, 99, 100, 4096, u64::MAX - 1, u64::MAX] {
        assert_eq!(parse_u64(&decimal_text(n)), Some(n));
    }
}

#[test]
fn short_url_of_public_link() {
    assert_eq!(short_url_of("https://disk.yandex.ru/d/abc?x=1"), "/d/abc");
    assert_eq!(short_url_of("https://yadi.sk/d/abc"), "/d/abc");
    assert_eq!(short_url_of("https://yadi.sk/d/abc#top"), "/d/abc");
    assert_eq!(short_url_of("https://yadi.sk/i/a/b/c?u=/x"), "/i/a/b/c");
}

#[test]
fn short_url_of_odd_links() {
    assert_eq!(short_url_of("https://yadi.sk"), "/");
    assert_eq!(short_url_of("yadi.sk/d/abc"), "/d/abc");
    assert_eq!(short_url_of(""), "/");
    assert_eq!(short_url_of("/"), "/");
    assert_eq!(short_url_of("https://host?x=/a"), "/a");
    assert_eq!(short_url_of("a://b://c/d"), "//c/d");
}

#[test]
fn short_url_ignores_query_and_fragment() {
    for link in ["https://disk.yandex.ru/d/abc", "yadi.sk/d/x", "https://yadi.sk/d/y?a=1"] {
        for tail in ["?q=1", "#f", "?", "#/deep"] {
            assert_eq!(short_url_of(&format!("{link}{tail}")), short_url_of(link));
        }
    }
}

#[test]
fn cloud_url_encodes_its_parameters() {
    assert_eq!(
        cloud_url("", "https://yadi.sk/d/a_b-c", None),
        "https://cloud-api.yandex.net/v1/disk/public/resources?public_key=https%3A%2F%2Fyadi%2Esk%2Fd%2Fa%5Fb%2Dc"
    );
    assert_eq!(
        cloud_url("/download", "k", Some("/папка/f 1.bin")),
        "https://cloud-api.yandex.net/v1/disk/public/resources/download?public_key=k&path=%2F%D0%BF%D0%B0%D0%BF%D0%BA%D0%B0%2Ff%201%2Ebin"
    );
}

#[test]
fn cloud_url_parameters_read_back() {
    for link in ["https://disk.yandex.ru/d/abc?x=1&y=2#z", "", "ключ=%41+ ", "🦀"] {
        for path in [None, Some(""), Some("/sub dir/файл?.bin"), Some("a=b&c")] {
            for suffix in ["", "/download"] {
                let url = cloud_url(suffix, link, path);
                assert_eq!(query_param(&url, "public_key").as_deref(), Some(link));
                assert_eq!(query_param(&url, "path").as_deref(), path);
            }
        }
    }
}

#[test]
fn query_param_takes_the_first_pair() {
    let url = "https://d.yandex.ru/x?uid=0&filename=a%20b.bin&fsize=12&filename=other";
    assert_eq!(query_param(url, "filename").as_deref(), Some("a b.bin"));
    assert_eq!(query_param(url, "fsize").as_deref(), Some("12"));
    assert_eq!(query_param(url, "uid").as_deref(), Some("0"));
    assert_eq!(query_param(url, "hash"), None);
}

#[test]
fn query_param_passes_over_what_is_no_pair() {
    assert_eq!(query_param("https://d/x", "a"), None);
    assert_eq!(query_param("https://d/x?", "a"), None);
    assert_eq!(query_param("x?a&b&a=1", "a").as_deref(), Some("1"));
    assert_eq!(query_param("x?a=1=2", "a").as_deref(), Some("1=2"));
    assert_eq!(query_param("x?=v", "").as_deref(), Some("v"));
    assert_eq!(query_param("x?a=&b=2", "a").as_deref(), Some(""));
    assert_eq!(query_param("x?b=1?a=2", "a"), None);
    assert_eq!(query_param("x?b=1&a=2?c=3", "a").as_deref(), Some("2?c=3"));
}

#[test]
fn query_param_decodes() {
    assert_eq!(query_param("x?n=%D1%84%d1%84", "n").as_deref(), Some("фф"));
    assert_eq!(query_param("x?n=100%&m=%zz%4", "n").as_deref(), Some("100%"));
    assert_eq!(query_param("x?n=100%&m=%zz%4", "m").as_deref(), Some("%zz%4"));
    assert_eq!(query_param("x?n=a+b", "n").as_deref(), Some("a+b"));
    assert_eq!(query_param("x?n=файл", "n").as_deref(), Some("файл"));
    assert_eq!(query_param("x?n=a%FFb", "n").as_deref(), Some("a\u{fffd}b"));
}
