use redisql::args::create_argument;
use redisql::error::ErrorKind;

#[test]
fn arguments_lose_trailing_zero_bytes() {
    let argv = vec![b"SELECT 1\0\0".to_vec(), b"db".to_vec(), Vec::new()];
    let args = create_argument(&argv).unwrap();
    assert_eq!(args, vec!["SELECT 1".to_string(), "db".to_string(), String::new()]);
}

#[test]
fn arguments_are_decoded_as_utf8() {
    let argv = vec![vec![0x68u8, 0xc3, 0xa9]];
    let args = create_argument(&argv).unwrap();
    assert_eq!(args, vec!["h\u{e9}".to_string()]);
    assert_eq!(args[0].chars().count(), 2);
}

#[test]
fn invalid_utf8_is_an_argument_error() {
    let argv = vec![b"ok".to_vec(), vec![0x66u8, 0xff, 0x66]];
    let err = create_argument(&argv).unwrap_err();
    assert_eq!(err.kind, ErrorKind::Argument);
    assert_eq!(err.debug, "String valid up to byte number 1");
}

#[test]
fn invalid_utf8_error_has_its_description() {
    let err = create_argument(&vec![vec![0xffu8]]).unwrap_err();
    assert_eq!(err.debug, "String valid up to byte number 0");
    assert_eq!(err.description, "Got a non-valid UTF8 string as input");
}
