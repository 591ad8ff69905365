use siphasher::sip128::SipHasher;
use typster_core::cell::SlotCell;
use typster_core::pages::{hash_text, page_hash, summarize_pages};
use typster_core::world::{date_from_ymd, Date};

#[test]
fn hash_text_is_lowercase_hex() {
    assert_eq!(hash_text(&[0x0f, 0xa0, 0xff]), "0fa0ff");
    assert_eq!(hash_text(&[]), "");
}

#[test]
fn page_hash_is_the_frame_digest_in_hex() {
    let h = page_hash(b"frame");
    assert_eq!(h.len(), 32);
    assert_eq!(h, hex::encode(SipHasher::new().hash(b"frame").as_bytes()));
    assert_ne!(page_hash(b"frame"), page_hash(b"frame2"));
}

#[test]
fn pages_are_numbered_from_one() {
    let frames = vec![b"p1".to_vec(), b"p2".to_vec(), b"p1".to_vec()];
    let pages = summarize_pages(&frames);
    let nums: Vec<u32> = pages.iter().map(|p| p.num).collect();
    assert_eq!(nums, vec![1, 2, 3]);
    assert_eq!(pages[0].hash, pages[2].hash);
    assert_ne!(pages[0].hash, pages[1].hash);
}

#[test]
fn refresh_with_same_fingerprint_keeps_value() {
    let mut cell: SlotCell<Vec<u8>> = SlotCell::new();
    let r = cell.refresh_fingerprinted(Ok(vec![1]), 7, |d, _| Ok(d));
    assert_eq!(r.ok(), Some(vec![1]));
    let r = cell.refresh_fingerprinted(Ok(vec![2]), 7, |d, _| Ok(d));
    assert_eq!(r.ok(), Some(vec![1]));
    let r = cell.refresh_fingerprinted(Ok(vec![3]), 8, |d, _| Ok(d));
    assert_eq!(r.ok(), Some(vec![3]));
    assert_eq!(cell.fingerprint, 8);
}

#[test]
fn dates_outside_the_calendar_are_refused() {
    assert_eq!(date_from_ymd(Some((2024, 2, 29))), Some(Date { year: 2024, month: 2, day: 29 }));
    assert_eq!(date_from_ymd(Some((10000, 1, 1))), None);
    assert_eq!(date_from_ymd(Some((2024, 13, 1))), None);
    assert_eq!(date_from_ymd(None), None);
}
