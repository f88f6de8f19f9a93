use filedrop::error::ServiceError;
use filedrop::url::{build_file_url, build_url_path, get_host_header, url_from_built};

fn host(text: &str) -> Option<&[u8]> {
    Some(text.as_bytes())
}

#[test]
fn url_for_a_named_file() {
    assert_eq!(
        build_file_url(host("example.com"), "abcd", "notes.txt"),
        Ok("https://example.com/abcd/notes.txt".to_string())
    );
}

#[test]
fn url_gets_the_fallback_extension_when_the_name_has_no_extension() {
    assert_eq!(
        build_file_url(host("example.com"), "Ab12", "README"),
        Ok("https://example.com/Ab12/README.bin".to_string())
    );
}

#[test]
fn url_keeps_a_name_that_has_an_extension() {
    assert_eq!(
        build_file_url(host("example.com"), "Ab12", ".bashrc"),
        Ok("https://example.com/Ab12/.bashrc".to_string())
    );
    assert_eq!(
        build_file_url(host("example.com"), "Ab12", "trailing."),
        Ok("https://example.com/Ab12/trailing.".to_string())
    );
}

#[test]
fn url_keeps_the_port_of_the_host() {
    assert_eq!(
        build_file_url(host("127.0.0.1:1337"), "q9Zx", "a.png"),
        Ok("https://127.0.0.1:1337/q9Zx/a.png".to_string())
    );
}

#[test]
fn url_segments_are_percent_encoded() {
    assert_eq!(build_url_path("abcd", "my file.txt"), "/abcd/my%20file.txt");
    assert_eq!(build_url_path("abcd", "a/b.txt"), "/abcd/a%2Fb.txt");
    assert_eq!(build_url_path("abcd", "r\u{e9}sum\u{e9}.pdf"), "/abcd/r%C3%A9sum%C3%A9.pdf");
    assert_eq!(build_url_path("abcd", "100%?#.txt"), "/abcd/100%25%3F%23.txt");
    assert_eq!(build_url_path("abcd", "keep-_.~"), "/abcd/keep-_.~");
    assert_eq!(build_url_path("a b", "x.y"), "/a%20b/x.y");
    assert_eq!(build_url_path("abcd", "\u{0}\u{f}\u{ff}.z"), "/abcd/%00%0F%C3%BF.z");
}

#[test]
fn url_path_of_a_name_without_an_extension() {
    assert_eq!(build_url_path("abcd", "no ext"), "/abcd/no%20ext.bin");
    assert_eq!(build_url_path("abcd", ""), "/abcd/.bin");
    assert_eq!(build_url_path("abcd", "dir/"), "/abcd/dir%2F.bin");
    assert_eq!(build_url_path("abcd", "a.b/c"), "/abcd/a.b%2Fc.bin");
    assert_eq!(build_url_path("abcd", ".."), "/abcd/...bin");
    assert_eq!(build_url_path("abcd", "x.y/.."), "/abcd/x.y%2F...bin");
}

#[test]
fn url_path_of_a_name_with_an_extension() {
    assert_eq!(build_url_path("abcd", ".bashrc"), "/abcd/.bashrc");
    assert_eq!(build_url_path("abcd", "trailing."), "/abcd/trailing.");
    assert_eq!(build_url_path("abcd", "dir/x.md"), "/abcd/dir%2Fx.md");
    assert_eq!(build_url_path("abcd", "x.md/"), "/abcd/x.md%2F");
}

#[test]
fn encoded_name_reaches_the_whole_url() {
    assert_eq!(
        build_file_url(host("files.example.org"), "0aZ9", "a b&c.tar.gz"),
        Ok("https://files.example.org/0aZ9/a%20b%26c.tar.gz".to_string())
    );
}

#[test]
fn missing_host_header() {
    assert_eq!(
        build_file_url(None, "abcd", "notes.txt"),
        Err(ServiceError::MissingHostHeader)
    );
    assert_eq!(get_host_header(None), Err(ServiceError::MissingHostHeader));
}

#[test]
fn host_header_that_is_not_text() {
    assert_eq!(
        get_host_header(Some(&[b'a', 0x80, b'b'])),
        Err(ServiceError::MalformedHost)
    );
    assert_eq!(
        get_host_header(Some(&[b'a', 0x7f])),
        Err(ServiceError::MalformedHost)
    );
    assert_eq!(
        get_host_header(Some(&[0x1f])),
        Err(ServiceError::MalformedHost)
    );
    assert_eq!(
        build_file_url(Some(&[0xff, 0xfe]), "abcd", "notes.txt"),
        Err(ServiceError::MalformedHost)
    );
}

#[test]
fn host_header_text() {
    assert_eq!(get_host_header(host("example.com")), Ok("example.com".to_string()));
    assert_eq!(get_host_header(host("")), Ok(String::new()));
    assert_eq!(get_host_header(host("a\tb ~")), Ok("a\tb ~".to_string()));
    assert_eq!(get_host_header(Some(&[32, 126])), Ok(" ~".to_string()));
}

#[test]
fn host_that_is_no_authority() {
    for bad in ["", "exa mple.com", "a/b", "host?x", "a:1:2", "[::1", "user@", "h\tost"] {
        assert_eq!(
            build_file_url(host(bad), "abcd", "notes.txt"),
            Err(ServiceError::MalformedHost),
            "host {:?}",
            bad
        );
    }
}

#[test]
fn host_forms_that_are_authorities() {
    for good in ["localhost", "EXAMPLE.com", "[::1]:8080", "user@example.com", "a-b.c_d:80"] {
        assert_eq!(
            build_file_url(host(good), "abcd", "x.y"),
            Ok(format!("https://{}/abcd/x.y", good)),
            "host {:?}",
            good
        );
    }
}

#[test]
fn built_text_is_handed_on() {
    assert_eq!(
        url_from_built(Ok("https://h/abcd/x.y".to_string())),
        Ok("https://h/abcd/x.y".to_string())
    );
}

#[test]
fn builder_refusal_is_a_malformed_host() {
    let refusal = actix_web::http::Uri::builder()
        .scheme("https")
        .authority("not a host")
        .path_and_query("/")
        .build()
        .unwrap_err();
    assert_eq!(url_from_built(Err(refusal)), Err(ServiceError::MalformedHost));
}

#[test]
fn long_names_are_addressed() {
    let name = format!("{}.txt", "n".repeat(70_000));
    let url = build_file_url(host("example.com"), "abcd", &name).unwrap();
    assert_eq!(url, format!("https://example.com/abcd/{}", name));
}
