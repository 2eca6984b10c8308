use nvme_io::buffer::DmaBuf;

#[test]
fn zeroed_buffer_is_zero_filled() {
    let buf = DmaBuf::zeroed(8);
    assert_eq!(buf.len(), 8);
    assert_eq!(buf.as_slice(), &[0u8; 8]);
}

#[test]
fn fill_cstr_copies_and_terminates() {
    let mut buf = DmaBuf::zeroed(8);
    buf.fill_cstr(b"hi");
    assert_eq!(buf.as_slice(), &[b'h', b'i', 0, 0, 0, 0, 0, 0]);
    assert_eq!(buf.read_cstr(), b"hi".to_vec());
}

#[test]
fn fill_cstr_truncates_to_capacity() {
    let mut buf = DmaBuf::zeroed(4);
    buf.fill_cstr(b"abcdef");
    assert_eq!(buf.as_slice(), &[b'a', b'b', b'c', 0]);
    assert_eq!(buf.read_cstr(), b"abc".to_vec());
}

#[test]
fn fill_cstr_leaves_tail_untouched() {
    let mut buf = DmaBuf::zeroed(6);
    buf.write_prefix(&[9, 9, 9, 9, 9, 9]);
    buf.fill_cstr(b"ab");
    assert_eq!(buf.as_slice(), &[b'a', b'b', 0, 9, 9, 9]);
}

#[test]
fn write_prefix_truncates_and_preserves_tail() {
    let mut buf = DmaBuf::zeroed(4);
    buf.write_prefix(&[1, 2]);
    assert_eq!(buf.as_slice(), &[1, 2, 0, 0]);
    buf.write_prefix(&[7, 7, 7, 7, 7, 7]);
    assert_eq!(buf.as_slice(), &[7, 7, 7, 7]);
}

#[test]
fn fill_read_roundtrip_full_page() {
    let content: Vec<u8> = (0..4095u32).map(|i| (i % 255) as u8 + 1).collect();
    let mut buf = DmaBuf::zeroed(4096);
    buf.fill_cstr(&content);
    assert_eq!(buf.read_cstr(), content);
}

#[test]
fn read_cstr_of_unterminated_buffer_is_whole_buffer() {
    let mut buf = DmaBuf::zeroed(3);
    buf.write_prefix(&[5, 6, 7]);
    assert_eq!(buf.read_cstr(), vec![5, 6, 7]);
}
