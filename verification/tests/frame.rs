use mcutie::packet_size;

#[test]
fn length_field_of_one_byte() {
    assert_eq!(packet_size(&[0x30, 0]), Some(2));
    assert_eq!(packet_size(&[0x30, 10, 1]), Some(12));
    assert_eq!(packet_size(&[0x30, 127]), Some(129));
}

#[test]
fn length_field_of_two_bytes() {
    assert_eq!(packet_size(&[0x30, 0x80, 1]), Some(131));
    assert_eq!(packet_size(&[0x30, 0xff, 0x7f]), Some(16386));
}

#[test]
fn length_field_of_three_bytes() {
    assert_eq!(packet_size(&[0x30, 0x80, 0x80, 1]), Some(16388));
    assert_eq!(packet_size(&[0x30, 0xff, 0xff, 0x7f]), Some(2097155));
}

#[test]
fn length_field_of_four_bytes() {
    assert_eq!(packet_size(&[0x30, 0x80, 0x80, 0x80, 1]), Some(2097157));
    assert_eq!(packet_size(&[0x30, 0xff, 0xff, 0xff, 0x7f]), Some(268435460));
}

#[test]
fn length_field_that_is_not_complete() {
    assert_eq!(packet_size(&[]), None);
    assert_eq!(packet_size(&[0x30]), None);
    assert_eq!(packet_size(&[0x30, 0x80]), None);
    assert_eq!(packet_size(&[0x30, 0x80, 0x80]), None);
    assert_eq!(packet_size(&[0x30, 0x80, 0x80, 0x80]), None);
}

#[test]
fn length_field_that_does_not_end() {
    assert_eq!(packet_size(&[0x30, 0x80, 0x80, 0x80, 0x80]), Some(0));
    assert_eq!(packet_size(&[0x30, 0xff, 0xff, 0xff, 0xff, 1]), Some(0));
}

#[test]
fn length_field_is_read_alike_whatever_follows() {
    for tail in [&[][..], &[0xff, 0xff], &[0, 1, 2, 3, 4, 5]] {
        let mut bytes = vec![0x90, 0x83, 0x02];
        bytes.extend_from_slice(tail);
        assert_eq!(packet_size(&bytes), Some(262));
    }
}
