use http_util::{
    basic_authorization, basic_credentials, format_authorization_by_basic,
    format_authorization_by_bearer, format_content_md5, ErrorKind, Operation,
};

#[test]
fn test_format_content_md5() {
    let cases = vec![(
        r#"<Delete>
<Object>
 <Key>sample1.txt</Key>
 </Object>
 <Object>
   <Key>sample2.txt</Key>
 </Object>
 </Delete>"#,
        "WOctCY1SS662e7ziElh4cw==",
    )];

    for (input, expected) in cases {
        let actual = format_content_md5(input.as_bytes());

        assert_eq!(actual, expected)
    }
}

#[test]
fn test_format_authorization_by_basic() {
    let cases = vec![
        ("aladdin", "opensesame", "Basic YWxhZGRpbjpvcGVuc2VzYW1l"),
        ("aladdin", "", "Basic YWxhZGRpbjo="),
        (
            "Aladdin",
            "open sesame",
            "Basic QWxhZGRpbjpvcGVuIHNlc2FtZQ==",
        ),
        ("Aladdin", "", "Basic QWxhZGRpbjo="),
    ];

    for (username, password, expected) in cases {
        let actual =
            format_authorization_by_basic(username, password).expect("format must success");

        assert_eq!(actual, expected)
    }
}

#[test]
fn test_format_authorization_by_bearer() {
    let cases = vec![("mF_9.B5f-4.1JqM", "Bearer mF_9.B5f-4.1JqM")];

    for (token, expected) in cases {
        let actual = format_authorization_by_bearer(token).expect("format must success");

        assert_eq!(actual, expected)
    }
}

#[test]
fn content_md5_of_empty_body() {
    assert_eq!(format_content_md5(b""), "1B2M2Y8AsgTpgAmY7PhCfg==");
}

#[test]
fn content_md5_is_stable() {
    let body = b"The quick brown fox jumps over the lazy dog";
    let first = format_content_md5(body);
    let second = format_content_md5(body);
    assert_eq!(first, "nhB9nTcrtoJr2B01QqQZ1g==");
    assert_eq!(first, second);
}

#[test]
fn content_md5_differs_from_its_input() {
    let body = b"abc";
    let value = format_content_md5(body);
    assert_eq!(value, "kAFQmDzST7DWlj99KOF/cg==");
    assert_ne!(value.as_bytes(), body);
}

#[test]
fn basic_with_empty_username_fails() {
    let e = format_authorization_by_basic("", "x").unwrap_err();
    assert_eq!(e.kind(), ErrorKind::InvalidCredential);
    assert_eq!(e.operation(), Operation::FormatAuthorizationByBasic);
    assert!(e.source().is_none());
}

#[test]
fn basic_with_both_empty_fails() {
    let e = format_authorization_by_basic("", "").unwrap_err();
    assert_eq!(e.kind(), ErrorKind::InvalidCredential);
}

#[test]
fn basic_encodes_utf8_credentials() {
    let actual = format_authorization_by_basic("jos\u{e9}", "pa:ss").unwrap();
    assert_eq!(actual, "Basic am9zw6k6cGE6c3M=");
}

#[test]
fn basic_credentials_joins_with_colon() {
    assert_eq!(basic_credentials("aladdin", "opensesame"), "aladdin:opensesame");
    assert_eq!(basic_credentials("aladdin", ""), "aladdin:");
    assert_eq!(basic_credentials("", ""), ":");
}

#[test]
fn basic_authorization_prepends_scheme() {
    assert_eq!(basic_authorization("YWxhZGRpbjo="), "Basic YWxhZGRpbjo=");
    assert_eq!(basic_authorization(""), "Basic ");
}

#[test]
fn bearer_with_empty_token_fails() {
    let e = format_authorization_by_bearer("").unwrap_err();
    assert_eq!(e.kind(), ErrorKind::InvalidCredential);
    assert_eq!(e.operation(), Operation::FormatAuthorizationByBearer);
    assert!(e.source().is_none());
}

#[test]
fn bearer_keeps_token_verbatim() {
    assert_eq!(
        format_authorization_by_bearer("a b\"c%20\u{e9}").unwrap(),
        "Bearer a b\"c%20\u{e9}"
    );
}
