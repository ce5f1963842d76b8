use zzdns::dns::lemma_flag_fields_recompose;
use zzdns::{DNSHeader, DNSQuestion};

fn header_bytes() -> Vec<u8> {
    vec![0x12, 0x34, 0x81, 0x80, 0x00, 0x01, 0x00, 0x02, 0x00, 0x03, 0x00, 0x04]
}

#[test]
fn header_parse_reads_twelve_bytes_big_endian() {
    let (h, n) = DNSHeader::parse(&header_bytes());
    assert_eq!(n, 12);
    assert_eq!(h.tranction_id(), 0x1234);
    assert_eq!(h.questions(), 1);
    assert_eq!(h.answer_rrs(), 2);
    assert_eq!(h.authority_rrs(), 3);
    assert_eq!(h.additional_rrs(), 4);
}

#[test]
fn header_parse_ignores_bytes_after_the_header() {
    let mut b = header_bytes();
    b.extend_from_slice(&[0xff, 0xee]);
    let (h, n) = DNSHeader::parse(&b);
    assert_eq!(n, 12);
    assert_eq!(h.additional_rrs(), 4);
}

#[test]
fn header_flag_fields_of_a_standard_response() {
    let (h, _) = DNSHeader::parse(&header_bytes());
    assert_eq!(h.qr(), 1);
    assert_eq!(h.op_code(), 0);
    assert_eq!(h.aa(), 0);
    assert_eq!(h.tc(), 0);
    assert_eq!(h.rd(), 1);
    assert_eq!(h.ra(), 1);
    assert_eq!(h.z(), 0);
    assert_eq!(h.r_code(), 0);
}

#[test]
fn header_flag_fields_of_every_bit_pattern() {
    // flags 0b0_1010_1_0_1_0_011_0101: QR 0, OPCODE 10, AA 1, TC 0, RD 1, RA 0, Z 3, RCODE 5
    let flags: u16 = 0b0101_0101_0011_0101;
    let mut b = header_bytes();
    b[2] = (flags >> 8) as u8;
    b[3] = (flags & 0xff) as u8;
    let (h, _) = DNSHeader::parse(&b);
    assert_eq!(h.qr(), 0);
    assert_eq!(h.op_code(), 10);
    assert_eq!(h.aa(), 1);
    assert_eq!(h.tc(), 0);
    assert_eq!(h.rd(), 1);
    assert_eq!(h.ra(), 0);
    assert_eq!(h.z(), 3);
    assert_eq!(h.r_code(), 5);
}

#[test]
fn header_flag_fields_put_back_together_give_the_flags() {
    for flags in [0u16, 1, 0x8180, 0x5535, 0xffff, 0x7a3c, 0x0ff0] {
        let mut b = header_bytes();
        b[2] = (flags >> 8) as u8;
        b[3] = (flags & 0xff) as u8;
        let (h, _) = DNSHeader::parse(&b);
        let back = h.qr() * 32768 + h.op_code() * 2048 + h.aa() * 1024 + h.tc() * 512
            + h.rd() * 256 + h.ra() * 128 + h.z() * 16 + h.r_code();
        assert_eq!(back, flags);
    }
    let _ = lemma_flag_fields_recompose;
}

fn question_bytes() -> Vec<u8> {
    // "a" "bc" then the zero length, then the four bytes of type and class,
    // then one more byte.
    vec![1, b'a', 2, b'b', b'c', 0, 0x00, 0x01, 0x00, 0x01, 0xaa]
}

#[test]
fn question_parse_joins_labels_with_dots() {
    let (q, _) = DNSQuestion::parse(question_bytes());
    assert_eq!(q.q_name(), "a.bc");
}

#[test]
fn question_parse_reads_type_and_class_one_byte_after_the_name() {
    // The name ends with the zero byte at position 5; the type is read from
    // positions 7 and 8, the class from 9 and 10.
    let (q, n) = DNSQuestion::parse(question_bytes());
    assert_eq!(q.q_type(), 0x0100);
    assert_eq!(q.q_class(), 0x01aa);
    assert_eq!(n, 10);
}

#[test]
fn question_parse_of_the_root_name() {
    let (q, n) = DNSQuestion::parse(vec![0, 9, 0, 28, 0, 1]);
    assert_eq!(q.q_name(), "");
    assert_eq!(q.q_type(), 28);
    assert_eq!(q.q_class(), 1);
    assert_eq!(n, 5);
}

#[test]
fn question_parse_of_utf8_labels() {
    let mut b = vec![3];
    b.extend_from_slice("é1".as_bytes());
    b.extend_from_slice(&[3, b'o', b'r', b'g', 0, 0, 0, 1, 0, 1]);
    let (q, n) = DNSQuestion::parse(b);
    assert_eq!(q.q_name(), "é1.org");
    assert_eq!(q.q_type(), 1);
    assert_eq!(q.q_class(), 1);
    assert_eq!(n, 13);
}

#[test]
fn question_parse_ignores_bytes_after_the_last_one_read() {
    let b = question_bytes();
    let (q, n) = DNSQuestion::parse(b.clone());
    for extra in [vec![], vec![0u8], vec![7, 7, 7, 7, 7, 7]] {
        let mut c = b[..n + 1].to_vec();
        c.extend_from_slice(&extra);
        let (q2, n2) = DNSQuestion::parse(c);
        assert_eq!(n2, n);
        assert_eq!(q2.q_name(), q.q_name());
        assert_eq!(q2.q_type(), q.q_type());
        assert_eq!(q2.q_class(), q.q_class());
    }
}
