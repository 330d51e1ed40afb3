use std::io::Read;
use std::io::Write;

use hulk_gamma::shm::export;

#[test]
fn export_read_back() {
    let data: Vec<u8> = vec![1, 2, 3, 250, 0, 77];
    let region = export(&data).unwrap();
    let mut f = region.memfd().as_file();
    let mut buf: Vec<u8> = Vec::new();
    f.read_to_end(&mut buf).unwrap();
    assert_eq!(buf, data);
    assert_eq!(buf.len(), data.len());
}

#[test]
fn export_empty_read_back() {
    let data: Vec<u8> = Vec::new();
    let region = export(&data).unwrap();
    let mut f = region.memfd().as_file();
    let mut buf: Vec<u8> = Vec::new();
    f.read_to_end(&mut buf).unwrap();
    assert_eq!(buf, data);
}

#[test]
fn export_sealed_against_write_and_resize() {
    let data: Vec<u8> = vec![9, 9];
    let region = export(&data).unwrap();
    let mut f = region.memfd().as_file();
    assert!(f.write_all(&[1]).is_err());
    assert!(region.memfd().as_file().set_len(10).is_err());
    assert!(region.memfd().as_file().set_len(1).is_err());
}
