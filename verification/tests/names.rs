use nvme_io::names::{bytes_of_i8, format_controller_name};

#[test]
fn bytes_of_i8_reinterprets_values() {
    let raw: Vec<i8> = vec![72, 101, 0, -1, -128];
    let out = bytes_of_i8(&raw);
    assert_eq!(out, vec![72u8, 101, 0, 255, 128]);
}

#[test]
fn controller_name_pads_both_fields() {
    let mn = b"ModelX\0\0\0\0".to_vec();
    let sn = b"SN123\0\0\0".to_vec();
    let name = format_controller_name(&mn, &sn);
    assert_eq!(
        name,
        b"ModelX               (SN123               )".to_vec()
    );
    assert_eq!(name.len(), 20 + 2 + 20 + 1);
}

#[test]
fn controller_name_truncates_long_fields() {
    let mn = b"AVeryLongModelNameThatGoesOn".to_vec();
    let sn = b"S".to_vec();
    let name = format_controller_name(&mn, &sn);
    assert_eq!(
        name,
        b"AVeryLongModelNameTh (S                   )".to_vec()
    );
}

#[test]
fn controller_name_of_unterminated_fixed_width_fields() {
    // identification fields are fixed-width and not NUL-terminated
    let mn = vec![b'M'; 40];
    let sn = vec![b'S'; 20];
    let name = format_controller_name(&mn, &sn);
    let mut expect = vec![b'M'; 20];
    expect.push(b' ');
    expect.push(b'(');
    expect.extend(vec![b'S'; 20]);
    expect.push(b')');
    assert_eq!(name, expect);
}
