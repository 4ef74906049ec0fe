use memequeue::framing::FramingError;
use memequeue::framing::StdBufFraming;

#[test]
fn read_message() -> Result<(), FramingError> {
    let mut buf = vec![];
    buf.extend_from_slice(&3_usize.to_le_bytes());
    buf.extend_from_slice(b"abc");
    buf.extend_from_slice(&6_usize.to_le_bytes());
    buf.extend_from_slice(b"qwerty");
    buf.extend_from_slice(&12_usize.to_le_bytes());
    buf.extend_from_slice(b"qwertyuiop[]");
    let mut stream = StdBufFraming::new(16, buf);
    stream.read_message(|m| assert_eq!(m, b"abc"))?;
    stream.read_message(|m| assert_eq!(m, b"qwerty"))?;
    stream.read_message(|m| assert_eq!(m, b"qwertyuiop[]"))?;
    Ok(())
}

#[test]
fn write_message_prefixes_the_length() {
    let mut stream = StdBufFraming::new(16, Vec::new());
    stream.write_message(b"abc").unwrap();
    let mut expected = vec![];
    expected.extend_from_slice(&3_usize.to_le_bytes());
    expected.extend_from_slice(b"abc");
    assert_eq!(stream.written(), &expected);
    stream.write_message(b"").unwrap();
    expected.extend_from_slice(&0_usize.to_le_bytes());
    assert_eq!(stream.written(), &expected);
    assert_eq!(stream.flush(), Ok(()));
    assert_eq!(stream.written(), &expected);
}

#[test]
fn written_messages_read_back() {
    let mut writer = StdBufFraming::new(64, Vec::new());
    writer.write_message(b"first").unwrap();
    writer.write_message(b"").unwrap();
    writer.write_message(b"third message").unwrap();
    let mut reader = StdBufFraming::new(64, writer.written().clone());
    assert_eq!(reader.read_message(|m| m.to_vec()), Ok(b"first".to_vec()));
    assert_eq!(reader.read_message(|m| m.to_vec()), Ok(Vec::new()));
    assert_eq!(reader.read_message(|m| m.to_vec()), Ok(b"third message".to_vec()));
    assert_eq!(reader.read_message(|m| m.to_vec()), Err(FramingError::UnexpectedEof));
}

#[test]
fn read_message_fails_on_a_cut_stream() {
    let mut buf = vec![];
    buf.extend_from_slice(&6_usize.to_le_bytes());
    buf.extend_from_slice(b"qwe");
    let mut stream = StdBufFraming::new(16, buf);
    assert_eq!(stream.read_message(|m| m.len()), Err(FramingError::UnexpectedEof));
    assert_eq!(stream.read_message(|m| m.len()), Err(FramingError::UnexpectedEof));

    let mut short = StdBufFraming::new(16, vec![1, 0]);
    assert_eq!(short.read_message(|m| m.len()), Err(FramingError::UnexpectedEof));
}

#[test]
fn read_message_leaves_a_message_that_is_too_long() {
    let mut buf = vec![];
    buf.extend_from_slice(&17_usize.to_le_bytes());
    buf.extend_from_slice(b"seventeen bytes!!");
    let mut stream = StdBufFraming::new(16, buf.clone());
    assert_eq!(stream.read_message(|m| m.len()), Err(FramingError::MessageTooLong));
    assert_eq!(stream.read_message(|m| m.len()), Err(FramingError::MessageTooLong));
    let mut wider = StdBufFraming::new(17, buf);
    assert_eq!(wider.read_message(|m| m.to_vec()), Ok(b"seventeen bytes!!".to_vec()));
}
