use ft_engine::hex::hex_dump;

#[test]
fn hex_dump_empty() {
    assert_eq!(hex_dump(&[]), "\n");
}

#[test]
fn hex_dump_one_row() {
    assert_eq!(hex_dump(&[0x00, 0x0f, 0xa5, 0xff]), "\n0000: 00 0f a5 ff \n");
}

#[test]
fn hex_dump_rows_of_sixteen() {
    let bytes: Vec<u8> = (0u8..18).collect();
    let expected = "\n0000: 00 01 02 03 04 05 06 07 08 09 0a 0b 0c 0d 0e 0f \n0010: 10 11 \n";
    assert_eq!(hex_dump(&bytes), expected);
}

#[test]
fn hex_dump_matches_format() {
    let bytes: Vec<u8> = (0..70000u32).map(|i| (i * 7 % 256) as u8).collect();
    let mut expected = String::new();
    for (i, b) in bytes.iter().enumerate() {
        if i % 16 == 0 {
            expected.push_str(&format!("\n{:04x}: ", i));
        }
        expected.push_str(&format!("{:02x} ", b));
    }
    expected.push('\n');
    assert_eq!(hex_dump(&bytes), expected);
}
