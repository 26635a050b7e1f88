use rubigo::path::{get_path_from_url, strip_url_scheme, HTTPS_SCHEME, HTTP_SCHEME, VENDOR_DIR};

fn owned(parts: &[&str]) -> Vec<String> {
    parts.iter().map(|p| p.to_string()).collect()
}

#[test]
fn strips_https_scheme() {
    assert_eq!(strip_url_scheme("https://github.com/a/b"), "github.com/a/b");
}

#[test]
fn strips_http_scheme() {
    assert_eq!(strip_url_scheme("http://github.com/a/b"), "github.com/a/b");
}

#[test]
fn keeps_path_without_scheme() {
    assert_eq!(strip_url_scheme("github.com/a/b"), "github.com/a/b");
}

#[test]
fn keeps_other_schemes() {
    assert_eq!(strip_url_scheme("ftp://github.com/a/b"), "ftp://github.com/a/b");
    assert_eq!(strip_url_scheme("git@github.com:a/b"), "git@github.com:a/b");
}

#[test]
fn strips_only_a_leading_scheme() {
    assert_eq!(strip_url_scheme("https://a/http://b"), "a/http://b");
    assert_eq!(strip_url_scheme("a/http://b"), "a/http://b");
    assert_eq!(strip_url_scheme("a/https://b"), "a/https://b");
    assert_eq!(strip_url_scheme(" https://a/b"), " https://a/b");
    assert_eq!(strip_url_scheme("xhttp://a/b"), "xhttp://a/b");
}

#[test]
fn strips_one_scheme_only() {
    assert_eq!(strip_url_scheme("http://http://a"), "http://a");
    assert_eq!(strip_url_scheme("https://https://a"), "https://a");
    assert_eq!(strip_url_scheme("http://https://a"), "https://a");
}

#[test]
fn scheme_alone_gives_the_empty_identifier() {
    assert_eq!(strip_url_scheme("http://"), "");
    assert_eq!(strip_url_scheme("https://"), "");
}

#[test]
fn incomplete_or_differently_written_scheme_stays() {
    assert_eq!(strip_url_scheme("http:/a"), "http:/a");
    assert_eq!(strip_url_scheme("https:/a"), "https:/a");
    assert_eq!(strip_url_scheme("http"), "http");
    assert_eq!(strip_url_scheme("httpss://a"), "httpss://a");
    assert_eq!(strip_url_scheme("HTTP://a"), "HTTP://a");
    assert_eq!(strip_url_scheme("Https://a"), "Https://a");
}

#[test]
fn strips_scheme_in_front_of_non_ascii_text() {
    assert_eq!(strip_url_scheme("https://höst.example/pä"), "höst.example/pä");
    assert_eq!(strip_url_scheme("äö/http://b"), "äö/http://b");
}

#[test]
fn schemes_are_written_as_expected() {
    assert_eq!(HTTP_SCHEME, "http://");
    assert_eq!(HTTPS_SCHEME, "https://");
}

#[test]
fn strips_nothing_from_empty_path() {
    assert_eq!(strip_url_scheme(""), "");
}

#[test]
fn vendor_path_has_root_then_segments() {
    assert_eq!(
        get_path_from_url("github.com/a/b"),
        owned(&["vendor", "github.com", "a", "b"])
    );
}

#[test]
fn vendor_path_starts_at_vendor_dir() {
    let path = get_path_from_url("example.org/pkg");
    assert_eq!(path[0], VENDOR_DIR);
    assert_eq!(path.len(), 3);
}

#[test]
fn vendor_path_of_single_segment() {
    assert_eq!(get_path_from_url("pkg"), owned(&["vendor", "pkg"]));
}

#[test]
fn vendor_path_of_empty_identifier() {
    assert_eq!(get_path_from_url(""), owned(&["vendor", ""]));
}

#[test]
fn vendor_path_keeps_empty_segments() {
    assert_eq!(get_path_from_url("a//b"), owned(&["vendor", "a", "", "b"]));
    assert_eq!(get_path_from_url("/a"), owned(&["vendor", "", "a"]));
    assert_eq!(get_path_from_url("a/"), owned(&["vendor", "a", ""]));
}

#[test]
fn vendor_path_keeps_non_ascii_segments() {
    assert_eq!(
        get_path_from_url("höst.example/pä/ck"),
        owned(&["vendor", "höst.example", "pä", "ck"])
    );
}

#[test]
fn vendor_path_segments_join_to_identifier() {
    let id = "github.com/user/repo/sub";
    let path = get_path_from_url(id);
    assert_eq!(path[1..].join("/"), id);
}

#[test]
fn normalized_identifier_maps_into_vendor_tree() {
    let id = strip_url_scheme("https://github.com/a/b");
    assert_eq!(get_path_from_url(&id), owned(&["vendor", "github.com", "a", "b"]));
}

#[test]
fn vendor_path_agrees_with_the_standard_split() {
    for id in ["", "/", "//", "a", "a/b", "/a/b/", "a//b", "github.com/user/repo/sub", "ä/ö"] {
        let mut expected = vec![VENDOR_DIR.to_string()];
        expected.extend(id.split('/').map(|p| p.to_string()));
        assert_eq!(get_path_from_url(id), expected, "{:?}", id);
    }
}

#[test]
fn different_identifiers_have_different_places() {
    let ids = ["a/b", "a/b/", "a//b", "ab", "a", "/a/b", "A/b"];
    for first in ids {
        for second in ids {
            assert_eq!(
                get_path_from_url(first) == get_path_from_url(second),
                first == second,
                "{:?} {:?}",
                first,
                second
            );
        }
    }
}
