use inscriber::der::sec1_to_der;
use inscriber::error::WalletError;

fn decode(d: &[u8]) -> (Vec<u8>, Vec<u8>) {
    assert_eq!(d[0], 0x30);
    assert_eq!(d[1] as usize + 2, d.len());
    assert_eq!(d[2], 0x02);
    let rl = d[3] as usize;
    let r = d[4..4 + rl].to_vec();
    assert_eq!(d[4 + rl], 0x02);
    let sl = d[5 + rl] as usize;
    let s = d[6 + rl..6 + rl + sl].to_vec();
    let strip = |v: Vec<u8>| if v.len() == 33 && v[0] == 0 { v[1..].to_vec() } else { v };
    (strip(r), strip(s))
}

#[test]
fn der_of_low_values() {
    let mut sig = vec![0x11u8; 32];
    sig.extend(vec![0x22u8; 32]);
    let d = sec1_to_der(sig).unwrap();
    let mut expected = vec![0x30, 68, 0x02, 32];
    expected.extend(vec![0x11u8; 32]);
    expected.extend(vec![0x02, 32]);
    expected.extend(vec![0x22u8; 32]);
    assert_eq!(d, expected);
}

#[test]
fn der_prepends_zero_to_high_values() {
    let mut sig = vec![0x80u8; 32];
    sig.extend(vec![0xffu8; 32]);
    let d = sec1_to_der(sig).unwrap();
    assert_eq!(d.len(), 72);
    assert_eq!(&d[..5], &[0x30, 70, 0x02, 33, 0x00]);
    assert_eq!(&d[37..40], &[0x02, 33, 0x00]);
}

#[test]
fn der_round_trips() {
    for (a, b) in [(0x00u8, 0x7fu8), (0x80, 0x01), (0x7f, 0xff), (0xff, 0x80)] {
        let mut sig = vec![a; 32];
        sig[5] = 0x42;
        let mut s = vec![b; 32];
        s[31] = 0x99;
        sig.extend(s.clone());
        let (r2, s2) = decode(&sec1_to_der(sig.clone()).unwrap());
        assert_eq!(r2, sig[..32].to_vec());
        assert_eq!(s2, s);
    }
}

#[test]
fn der_refuses_wrong_length() {
    assert_eq!(sec1_to_der(vec![1u8; 63]), Err(WalletError::MalformedInput));
    assert_eq!(sec1_to_der(vec![1u8; 65]), Err(WalletError::MalformedInput));
    assert_eq!(sec1_to_der(Vec::new()), Err(WalletError::MalformedInput));
}
