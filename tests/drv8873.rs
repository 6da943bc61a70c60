use omnitiles::drv8873::{build_word, decode_response, reg, word_bytes, Diag, Fault, Status};

#[test]
fn status_bits() {
    let s = Status::from_raw(0b0010_0101);
    assert_eq!(s.raw(), 0x25);
    assert!(s.otw());
    assert!(!s.uvlo());
    assert!(!s.cpuv());
    assert!(s.ocp());
    assert!(!s.tsd());
    assert!(s.open_load());
    let s = Status::from_raw(0b0001_1010);
    assert!(!s.otw() && s.uvlo() && s.cpuv() && !s.ocp() && s.tsd() && !s.open_load());
}

#[test]
fn fault_bits() {
    let f = Fault::from_raw(0b0100_0001);
    assert!(f.fault());
    assert!(f.open_load());
    assert!(!f.otw() && !f.uvlo() && !f.cpuv() && !f.ocp() && !f.tsd());
    let f = Fault::from_raw(0b0011_1110);
    assert!(!f.fault() && f.otw() && f.uvlo() && f.cpuv() && f.ocp() && f.tsd() && !f.open_load());
    assert_eq!(f.raw(), 0x3E);
}

#[test]
fn diag_bits() {
    let d = Diag::from_raw(0b1010_1010);
    assert!(d.ol1() && !d.ol2() && d.itrip1() && !d.itrip2());
    assert!(d.ocp_h1() && !d.ocp_l1() && d.ocp_h2() && !d.ocp_l2());
    let d = Diag::from_raw(0b0101_0101);
    assert!(!d.ol1() && d.ol2() && !d.itrip1() && d.itrip2());
    assert!(!d.ocp_h1() && d.ocp_l1() && !d.ocp_h2() && d.ocp_l2());
    assert_eq!(d.raw(), 0x55);
}

#[test]
fn command_words() {
    assert_eq!(build_word(true, reg::FAULT, 0), 0x4000);
    assert_eq!(build_word(true, reg::DIAG, 0), 0x4200);
    assert_eq!(build_word(false, reg::IC1, 0xAB), 0x04AB);
    assert_eq!(build_word(false, reg::IC4, 0x01), 0x0A01);
    // Address bits above the fifth are dropped.
    assert_eq!(build_word(true, 0xFF, 0x12), 0x7E12);
}

#[test]
fn word_is_sent_msb_first() {
    assert_eq!(word_bytes(0x7E12), [0x7E, 0x12]);
    assert_eq!(word_bytes(0x00FF), [0x00, 0xFF]);
}

#[test]
fn response_decoding() {
    let r = decode_response([0x21, 0x5A]);
    assert_eq!(r.data, 0x5A);
    assert_eq!(r.status.raw(), 0x21);
    assert!(r.status.otw() && r.status.open_load() && !r.status.ocp());
}
