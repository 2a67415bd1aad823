use soapdav::path::split_path;
use soapdav::path::split_text;

fn tokens(path: &str) -> Vec<String> {
    split_path(path.as_bytes()).unwrap()
}

#[test]
fn a_path_is_cut_at_its_slashes_and_empty_pieces_are_dropped() {
    assert_eq!(tokens("/manga/doujin"), vec!["manga", "doujin"]);
    assert_eq!(tokens("manga"), vec!["manga"]);
    assert_eq!(tokens("//manga///doujin//"), vec!["manga", "doujin"]);
    assert!(tokens("").is_empty());
    assert!(tokens("/").is_empty());
    assert!(tokens("///").is_empty());
    assert_eq!(tokens("a/b/c/"), vec!["a", "b", "c"]);
}

#[test]
fn percent_escapes_are_decoded_before_the_path_is_cut() {
    assert_eq!(tokens("/foo%20bar%3f"), vec!["foo bar?"]);
    assert_eq!(tokens("/a%2Fb/c"), vec!["a", "b", "c"]);
    assert_eq!(tokens("/a%2fb"), vec!["a", "b"]);
    assert_eq!(tokens("/%E6%BC%AB%E7%94%BB/x"), vec!["漫画", "x"]);
    assert_eq!(tokens("/漫画"), vec!["漫画"]);
}

#[test]
fn a_percent_sign_without_two_hex_digits_stands_for_itself() {
    assert_eq!(tokens("/100%"), vec!["100%"]);
    assert_eq!(tokens("/a%2"), vec!["a%2"]);
    assert_eq!(tokens("/a%zz/b"), vec!["a%zz", "b"]);
    assert_eq!(tokens("/%%41"), vec!["%A"]);
    assert_eq!(tokens("/%2541"), vec!["%41"]);
}

#[test]
fn a_path_that_does_not_decode_to_utf8_is_an_error() {
    assert!(split_path(b"/a%FF").is_err());
    assert!(split_path(b"/%E6%BC").is_err());
    assert!(split_path(&[b'/', 0xff]).is_err());
    assert!(split_path(b"/ok%41").is_ok());
}

#[test]
fn split_text_cuts_decoded_text() {
    assert_eq!(split_text(&String::from("a/b%2Fc")), vec!["a", "b%2Fc"]);
    assert_eq!(split_text(&String::from("/é/漫画/")), vec!["é", "漫画"]);
    assert!(split_text(&String::from("")).is_empty());
}
