use smart_home_api::json::quote;
use smart_home_api::transport::{
    check_client_hello, check_server_hello, client_hello_bytes, decode_body, encode_frame,
    frame_length, server_hello_bytes, ConnectError, RecvError,
};

#[test]
fn frames_carry_length_then_body() {
    let f = encode_frame("hé").unwrap();
    assert_eq!(f, vec![0, 0, 0, 3, b'h', 0xc3, 0xa9]);
    assert_eq!(frame_length(&f[..4]), 3);
    assert_eq!(frame_length(&[1, 2, 3, 4]), 0x01020304);
    assert_eq!(encode_frame("").unwrap(), vec![0, 0, 0, 0]);
}

#[test]
fn bodies_must_be_utf8() {
    assert_eq!(decode_body(vec![b'o', b'k']).ok().unwrap(), "ok");
    let e = decode_body(vec![0xff, 0xfe]).err().unwrap();
    assert!(matches!(e, RecvError::BadEncoding));
    assert_eq!(e.to_text(), "bad encoding");
}

#[test]
fn handshake() {
    assert_eq!(client_hello_bytes(), b"clnt".to_vec());
    assert_eq!(server_hello_bytes(), b"serv".to_vec());
    assert!(check_server_hello(b"serv").is_ok());
    assert!(check_client_hello(b"clnt").is_ok());
    let e = check_server_hello(b"clnt").err().unwrap();
    assert!(matches!(e, ConnectError::BadHandshake));
    assert_eq!(e.to_text(), "bad handshake");
    assert!(check_client_hello(b"cln").is_err());
}

#[test]
fn json_string_escapes() {
    assert_eq!(quote("a\"b\\c\n\u{1}é"), "\"a\\\"b\\\\c\\n\\u0001é\"");
}
