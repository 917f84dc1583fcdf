use inscriber::error::WalletError;
use inscriber::inscription::{Inscription, Tag};

fn envelope(ins: &Inscription) -> Vec<u8> {
    ins.append_reveal_script_to_builder(Vec::new()).unwrap()
}

#[test]
fn tag_bytes_and_chunking() {
    assert_eq!(Tag::ContentType.bytes(), vec![1]);
    assert_eq!(Tag::Pointer.bytes(), vec![2]);
    assert_eq!(Tag::Parent.bytes(), vec![3]);
    assert_eq!(Tag::Metadata.bytes(), vec![5]);
    assert_eq!(Tag::Metaprotocol.bytes(), vec![7]);
    assert_eq!(Tag::ContentEncoding.bytes(), vec![9]);
    assert_eq!(Tag::Delegate.bytes(), vec![11]);
    assert_eq!(Tag::Unbound.bytes(), vec![66]);
    assert_eq!(Tag::Nop.bytes(), vec![255]);
    assert!(Tag::Metadata.is_chunked());
    assert!(!Tag::ContentType.is_chunked());
}

#[test]
fn new_sets_only_content_type_and_body() {
    let ins = Inscription::new(Some(b"text/plain".to_vec()), Some(b"hi".to_vec()));
    assert_eq!(ins.content_type, Some(b"text/plain".to_vec()));
    assert_eq!(ins.body, Some(b"hi".to_vec()));
    assert_eq!(ins.metadata, None);
    assert!(!ins.duplicate_field);
}

#[test]
fn envelope_of_text_inscription() {
    let ins = Inscription::new(Some(b"text/plain".to_vec()), Some(b"hi".to_vec()));
    let mut expected = vec![0x00, 0x63, 0x03, b'o', b'r', b'd', 0x01, 0x01, 0x0a];
    expected.extend_from_slice(b"text/plain");
    expected.extend_from_slice(&[0x00, 0x02, b'h', b'i', 0x68]);
    assert_eq!(envelope(&ins), expected);
}

#[test]
fn envelope_keeps_builder_prefix() {
    let ins = Inscription::new(None, None);
    let s = ins.append_reveal_script_to_builder(vec![0xaa]).unwrap();
    assert_eq!(s, vec![0xaa, 0x00, 0x63, 0x03, b'o', b'r', b'd', 0x68]);
}

#[test]
fn body_is_split_into_520_byte_chunks() {
    let body: Vec<u8> = (0..1000u32).map(|i| (i % 251) as u8).collect();
    let ins = Inscription::new(None, Some(body.clone()));
    let s = envelope(&ins);
    let mut expected = vec![0x00, 0x63, 0x03, b'o', b'r', b'd', 0x00];
    expected.extend_from_slice(&[0x4d, 0x08, 0x02]);
    expected.extend_from_slice(&body[..520]);
    expected.extend_from_slice(&[0x4d, 0xe0, 0x01]);
    expected.extend_from_slice(&body[520..]);
    expected.push(0x68);
    assert_eq!(s, expected);
}

#[test]
fn medium_field_uses_pushdata1() {
    let ct = vec![7u8; 100];
    let ins = Inscription::new(Some(ct.clone()), None);
    let s = envelope(&ins);
    let mut expected = vec![0x00, 0x63, 0x03, b'o', b'r', b'd', 0x01, 0x01, 0x4c, 100];
    expected.extend_from_slice(&ct);
    expected.push(0x68);
    assert_eq!(s, expected);
}

#[test]
fn metadata_chunks_repeat_the_tag() {
    let mut ins = Inscription::new(None, None);
    ins.metadata = Some(vec![1u8; 600]);
    let s = envelope(&ins);
    let mut expected = vec![0x00, 0x63, 0x03, b'o', b'r', b'd', 0x01, 0x05, 0x4d, 0x08, 0x02];
    expected.extend_from_slice(&[1u8; 520]);
    expected.extend_from_slice(&[0x01, 0x05, 0x4c, 80]);
    expected.extend_from_slice(&[1u8; 80]);
    expected.push(0x68);
    assert_eq!(s, expected);
}

#[test]
fn fields_come_in_wire_order() {
    let mut ins = Inscription::new(Some(vec![0xc1]), None);
    ins.pointer = Some(vec![0xd1]);
    ins.content_encoding = Some(vec![0xe1]);
    ins.parent = Some(vec![0xf1]);
    ins.delegate = Some(vec![0xa1]);
    ins.metaprotocol = Some(vec![0xb1]);
    let s = envelope(&ins);
    let expected = vec![
        0x00, 0x63, 0x03, b'o', b'r', b'd', 0x01, 1, 0x01, 0xc1, 0x01, 9, 0x01, 0xe1, 0x01, 7, 0x01,
        0xb1, 0x01, 3, 0x01, 0xf1, 0x01, 11, 0x01, 0xa1, 0x01, 2, 0x01, 0xd1, 0x68,
    ];
    assert_eq!(s, expected);
}

#[test]
fn oversized_unchunked_field_is_refused() {
    let ins = Inscription::new(Some(vec![0u8; 521]), Some(b"x".to_vec()));
    assert_eq!(ins.append_reveal_script_to_builder(Vec::new()), Err(WalletError::MalformedInput));
    let ok = Inscription::new(Some(vec![0u8; 520]), None);
    assert!(ok.append_reveal_script_to_builder(Vec::new()).is_ok());
}

// Reads the pushes back and checks the round trip on a body of several chunks.
#[test]
fn decoded_envelope_round_trips() {
    let body: Vec<u8> = (0..1500u32).map(|i| (i * 7 % 256) as u8).collect();
    let ins = Inscription::new(Some(b"image/png".to_vec()), Some(body.clone()));
    let s = envelope(&ins);
    assert_eq!(&s[..2], &[0x00, 0x63]);
    assert_eq!(*s.last().unwrap(), 0x68);
    let inner = &s[2..s.len() - 1];
    let mut items: Vec<Vec<u8>> = Vec::new();
    let mut i = 0;
    while i < inner.len() {
        let (h, n) = match inner[i] {
            b if b < 0x4c => (1, b as usize),
            0x4c => (2, inner[i + 1] as usize),
            0x4d => (3, inner[i + 1] as usize + 256 * inner[i + 2] as usize),
            _ => panic!("not a push"),
        };
        items.push(inner[i + h..i + h + n].to_vec());
        i += h + n;
    }
    assert_eq!(items[0], b"ord".to_vec());
    assert_eq!(items[1], vec![1]);
    assert_eq!(items[2], b"image/png".to_vec());
    assert!(items[3].is_empty());
    assert_eq!(items.len(), 7);
    assert_eq!(items[4..].concat(), body);
}
