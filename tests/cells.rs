use std::cell::Cell;

use typster_core::cell::{decode_utf8, FileSlot, SlotCell};
use typster_core::error::{FileError, IoKind};
use typster_core::fingerprint::{encode_outcome, fingerprint};
use typster_core::vpath::{FileId, VirtualPath};

fn text_decoder(
    count: &Cell<usize>,
) -> impl FnOnce(Vec<u8>, Option<String>) -> Result<String, FileError> + '_ {
    move |data: Vec<u8>, _prev: Option<String>| {
        count.set(count.get() + 1);
        decode_utf8(&data)
    }
}

#[test]
fn second_load_in_pass_is_served_from_cache() {
    let mut cell: SlotCell<String> = SlotCell::new();
    let loads = Cell::new(0usize);
    let decodes = Cell::new(0usize);
    let first = cell.get_or_init(
        || {
            loads.set(loads.get() + 1);
            Ok(b"hello".to_vec())
        },
        text_decoder(&decodes),
    );
    let second = cell.get_or_init(
        || {
            loads.set(loads.get() + 1);
            Ok(b"changed".to_vec())
        },
        text_decoder(&decodes),
    );
    assert_eq!(first.ok(), Some("hello".to_string()));
    assert_eq!(second.ok(), Some("hello".to_string()));
    assert_eq!(loads.get(), 1);
    assert_eq!(decodes.get(), 1);
    assert!(cell.accessed());
}

#[test]
fn unchanged_bytes_skip_decode_in_next_pass() {
    let mut cell: SlotCell<String> = SlotCell::new();
    let decodes = Cell::new(0usize);
    let first = cell.get_or_init(|| Ok(b"same".to_vec()), text_decoder(&decodes));
    cell.reset();
    assert!(!cell.accessed());
    let loads = Cell::new(0usize);
    let second = cell.get_or_init(
        || {
            loads.set(loads.get() + 1);
            Ok(b"same".to_vec())
        },
        text_decoder(&decodes),
    );
    assert_eq!(loads.get(), 1);
    assert_eq!(decodes.get(), 1);
    assert_eq!(first.ok(), second.ok());
}

#[test]
fn changed_byte_changes_fingerprint_and_decodes() {
    let mut cell: SlotCell<String> = SlotCell::new();
    let decodes = Cell::new(0usize);
    let _ = cell.get_or_init(|| Ok(b"abc".to_vec()), text_decoder(&decodes));
    let before = cell.fingerprint;
    cell.reset();
    let r = cell.get_or_init(|| Ok(b"abd".to_vec()), text_decoder(&decodes));
    assert_eq!(r.ok(), Some("abd".to_string()));
    assert_eq!(decodes.get(), 2);
    assert_ne!(cell.fingerprint, before);
    assert_eq!(cell.fingerprint, fingerprint(&Ok(b"abd".to_vec())));
}

#[test]
fn load_failures_are_cached_until_bytes_change() {
    let mut cell: SlotCell<String> = SlotCell::new();
    let decodes = Cell::new(0usize);
    let r1 = cell.get_or_init(|| Err(FileError::AccessDenied), text_decoder(&decodes));
    assert!(matches!(r1, Err(FileError::AccessDenied)));
    cell.reset();
    let r2 = cell.get_or_init(|| Err(FileError::AccessDenied), text_decoder(&decodes));
    assert!(matches!(r2, Err(FileError::AccessDenied)));
    assert_eq!(decodes.get(), 0);
    cell.reset();
    let r3 = cell.get_or_init(|| Ok(b"ok".to_vec()), text_decoder(&decodes));
    assert_eq!(r3.ok(), Some("ok".to_string()));
    assert_eq!(decodes.get(), 1);
}

#[test]
fn decoder_receives_previous_value() {
    let mut cell: SlotCell<String> = SlotCell::new();
    let _ = cell.get_or_init(|| Ok(b"one".to_vec()), |d, _| decode_utf8(&d));
    cell.reset();
    let seen = Cell::new(false);
    let _ = cell.get_or_init(
        || Ok(b"two".to_vec()),
        |d, prev: Option<String>| {
            seen.set(prev.as_deref() == Some("one"));
            decode_utf8(&d)
        },
    );
    assert!(seen.get());
}

#[test]
fn decode_utf8_strips_bom_and_rejects_invalid() {
    assert_eq!(decode_utf8(b"\xef\xbb\xbfhi").ok(), Some("hi".to_string()));
    assert_eq!(decode_utf8("é".as_bytes()).ok(), Some("é".to_string()));
    assert!(matches!(decode_utf8(b"\xff\xfe"), Err(FileError::InvalidUtf8)));
    assert_eq!(decode_utf8(b"").ok(), Some(String::new()));
}

#[test]
fn outcome_encoding_distinguishes_bytes_and_errors() {
    assert_eq!(encode_outcome(&Ok(vec![9, 8])), vec![0, 9, 8]);
    assert_eq!(encode_outcome(&Err(FileError::IsDirectory)), vec![3]);
    assert_eq!(
        encode_outcome(&Err(FileError::NotFound("a".to_string()))),
        vec![1, b'1', b':', b'a']
    );
    assert_ne!(
        fingerprint(&Ok(vec![1])),
        fingerprint(&Err(FileError::AccessDenied))
    );
}

#[test]
fn file_slot_reads_text_and_bytes_separately() {
    let id = FileId::new(None, VirtualPath::new("main.typ"));
    let mut slot = FileSlot::new(id);
    assert!(!slot.accessed());
    let text = slot.source(|| Ok(b"\xef\xbb\xbf= Title".to_vec()));
    assert_eq!(text.ok(), Some("= Title".to_string()));
    assert!(slot.accessed());
    let bytes = slot.file(|| Ok(b"\xef\xbb\xbf= Title".to_vec()));
    assert_eq!(bytes.ok(), Some(b"\xef\xbb\xbf= Title".to_vec()));
    slot.reset();
    assert!(!slot.accessed());
}

#[test]
fn io_faults_are_classified_with_their_path() {
    assert!(matches!(
        FileError::from_io(IoKind::NotFound, "/p/a.typ", "gone".to_string()),
        FileError::NotFound(ref p) if p == "/p/a.typ"
    ));
    assert!(matches!(
        FileError::from_io(IoKind::PermissionDenied, "/p", String::new()),
        FileError::AccessDenied
    ));
    assert!(matches!(
        FileError::from_io(IoKind::IsADirectory, "/p", String::new()),
        FileError::IsDirectory
    ));
    assert!(matches!(
        FileError::from_io(IoKind::InvalidData, "/p", String::new()),
        FileError::InvalidUtf8
    ));
    assert!(matches!(
        FileError::from_io(IoKind::Other, "/p/b", "boom".to_string()),
        FileError::Io(ref p, ref m) if p == "/p/b" && m == "boom"
    ));
    assert!(matches!(
        FileError::from_io(IoKind::TimedOut, "/p/c", "slow".to_string()),
        FileError::Io(ref p, _) if p == "/p/c"
    ));
    assert_eq!(
        encode_outcome(&Err(FileError::Io("a".to_string(), "b".to_string()))),
        vec![7, b'1', b':', b'a', b'1', b':', b'b']
    );
}
