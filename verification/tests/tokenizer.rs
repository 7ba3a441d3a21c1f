use safe_ffi::{path_tokeniser, tokenise_str, FfiError};

fn expected_abc_d_ef() -> Vec<String> {
    vec!["abc".to_string(), "d".to_string(), "ef".to_string()]
}

#[test]
fn parse_path() {
    let path_0 = "/abc/d/ef";
    let path_1 = "/abc/d/ef/";
    let path_2 = "///abc///d/ef////";

    let expected = expected_abc_d_ef();

    let tokenised_0 = path_tokeniser(path_0.as_bytes()).unwrap();
    let tokenised_1 = path_tokeniser(path_1.as_bytes()).unwrap();
    let tokenised_2 = path_tokeniser(path_2.as_bytes()).unwrap();

    assert_eq!(tokenised_0, expected);
    assert_eq!(tokenised_1, expected);
    assert_eq!(tokenised_2, expected);
}

#[test]
fn tokenise_str_ignores_redundant_slashes() {
    let expected = expected_abc_d_ef();
    assert_eq!(tokenise_str("abc/d/ef"), expected);
    assert_eq!(tokenise_str("/abc/d/ef"), expected);
    assert_eq!(tokenise_str("abc/d/ef///"), expected);
    assert_eq!(tokenise_str("//abc//d//ef"), expected);
}

#[test]
fn tokenise_empty_and_only_slashes() {
    assert_eq!(tokenise_str(""), Vec::<String>::new());
    assert_eq!(tokenise_str("/"), Vec::<String>::new());
    assert_eq!(tokenise_str("////"), Vec::<String>::new());
    assert_eq!(path_tokeniser(b"").unwrap(), Vec::<String>::new());
    assert_eq!(path_tokeniser(b"///").unwrap(), Vec::<String>::new());
}

#[test]
fn tokenise_single_segment() {
    assert_eq!(tokenise_str("abc"), vec!["abc".to_string()]);
    assert_eq!(tokenise_str("/abc/"), vec!["abc".to_string()]);
}

#[test]
fn path_tokeniser_decodes_multibyte_text() {
    let toks = path_tokeniser("caf\u{e9}/\u{3b1}\u{3b2}".as_bytes()).unwrap();
    assert_eq!(toks, vec!["caf\u{e9}".to_string(), "\u{3b1}\u{3b2}".to_string()]);
}

#[test]
fn path_tokeniser_rejects_invalid_bytes() {
    let bad = [0x2f_u8, 0xff, 0xfe];
    assert_eq!(path_tokeniser(&bad), Err(FfiError::DecodingError));
    let truncated = [0xc3_u8];
    assert_eq!(path_tokeniser(&truncated), Err(FfiError::DecodingError));
}
