use walcraft::buffer::Buffer;
use walcraft::DEFAULT_BUFFER_SIZE;

#[test]
fn default_size() {
    let buffer = Buffer::new(None);
    assert_eq!(buffer.size(), DEFAULT_BUFFER_SIZE);
}

#[test]
fn consume() {
    let mut buffer = Buffer::new(None);
    let data = [20; 100];
    buffer.add(&data);
    let data = buffer.consume(false);
    assert_eq!(data.len(), 102); // 2 extra bytes are for representation of length of 1 added item to buffer
}

#[test]
fn consume_padding() {
    let mut buffer = Buffer::new(None);
    let data = [10; 100];
    buffer.add(&data);
    let data = buffer.consume(true);
    assert_eq!(data.len(), DEFAULT_BUFFER_SIZE);
}

#[test]
fn try_add() {
    let mut buffer = Buffer::new(Some(120));
    let data = [10; 100];
    let d = buffer.try_add(&data);
    assert_eq!(d, (true, false));
    let data = [10; 100];
    let d = buffer.try_add(&data);
    assert_eq!(d, (true, true));
}

#[test]
fn reject_on_add() {
    let mut buffer = Buffer::new(Some(120));
    // first larger than buffer size payload
    let data = [10; 140];
    let d = buffer.try_add(&data);
    assert_eq!(d, (true, true));
    // extending the existing buffer will fail now
    let data = [10; 20];
    let d = buffer.try_add(&data);
    assert_eq!(d, (false, true));
}

#[test]
fn empty_payload_is_dropped() {
    let mut buffer = Buffer::new(Some(120));
    let d = buffer.try_add(&[]);
    assert_eq!(d, (true, false));
    assert_eq!(buffer.inner().len(), 0);
}

#[test]
fn length_prefix_is_little_endian() {
    let mut buffer = Buffer::new(Some(1024));
    let data = [7u8; 300];
    buffer.add(&data);
    let bytes = buffer.consume(false);
    assert_eq!(bytes.len(), 302);
    assert_eq!(bytes[0], 44); // 300 % 256
    assert_eq!(bytes[1], 1); // 300 / 256
    assert_eq!(&bytes[2..], &data[..]);
}
