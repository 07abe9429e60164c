use p2p_transport::record::{frame_record, record_len, split_record};

#[test]
fn a_record_travels_behind_two_octets_of_length() {
    assert_eq!(frame_record(b"abc"), Some(vec![0, 3, b'a', b'b', b'c']));
    assert_eq!(frame_record(b""), Some(vec![0, 0]));
    let long = vec![7u8; 0x0102];
    let unit = frame_record(&long).unwrap();
    assert_eq!(&unit[..2], &[0x01, 0x02]);
    assert_eq!(unit.len(), 2 + 0x0102);
}

#[test]
fn the_longest_record_has_65535_octets() {
    let most = vec![1u8; 65535];
    let unit = frame_record(&most).unwrap();
    assert_eq!(&unit[..2], &[0xff, 0xff]);
    assert_eq!(split_record(&unit), Some((most, 65537)));
    assert_eq!(frame_record(&vec![1u8; 65536]), None);
}

#[test]
fn split_inverts_frame_whatever_follows() {
    for record in [&b""[..], &b"x"[..], &b"hello world"[..], &[0u8, 255, 10][..]] {
        let mut buf = frame_record(record).unwrap();
        assert_eq!(split_record(&buf), Some((record.to_vec(), 2 + record.len())));
        buf.extend_from_slice(b"next");
        assert_eq!(split_record(&buf), Some((record.to_vec(), 2 + record.len())));
    }
}

#[test]
fn split_waits_for_the_whole_record() {
    assert_eq!(split_record(b""), None);
    assert_eq!(split_record(&[0]), None);
    assert_eq!(split_record(&[0, 3, b'a', b'b']), None);
    assert_eq!(split_record(&[0, 3, b'a', b'b', b'c']), Some((b"abc".to_vec(), 5)));
    assert_eq!(split_record(&[1, 0]), None);
}

#[test]
fn record_len_reads_the_length() {
    assert_eq!(record_len(&[]), None);
    assert_eq!(record_len(&[9]), None);
    assert_eq!(record_len(&[0, 0]), Some(0));
    assert_eq!(record_len(&[1, 2]), Some(258));
    assert_eq!(record_len(&[0xff, 0xff, 5]), Some(65535));
}
