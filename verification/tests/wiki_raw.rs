use seaki::wiki::raw::RawCas;

#[test]
fn raw_path_for_ascii_key() {
    let cas = RawCas::new("root".to_string(), b"workspace".to_vec()).unwrap();
    assert_eq!(cas.path_for_key("abcd"), "root/ab/abcd");
}

#[test]
fn raw_path_for_key_with_two_byte_head() {
    let cas = RawCas::new("root/".to_string(), b"workspace".to_vec()).unwrap();
    assert_eq!(cas.path_for_key("éx"), "root/é/éx");
}

#[test]
fn raw_path_for_absolute_key() {
    let cas = RawCas::new("root".to_string(), b"workspace".to_vec()).unwrap();
    assert_eq!(cas.path_for_key("/abs"), "/abs");
}

#[test]
fn raw_locate_gives_hex_key() {
    let cas = RawCas::new("root".to_string(), b"workspace".to_vec()).unwrap();
    let location = cas.locate(b"hello");
    assert_eq!(location.raw_key.len(), 64);
    assert!(location.raw_key.chars().all(|c| c.is_ascii_digit() || ('a'..='f').contains(&c)));
    assert_eq!(location.content_hash.len(), 64);
}
