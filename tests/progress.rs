use std::cell::RefCell;

use typster_core::error::IoKind;

use typster_core::progress::{
    as_bytes_unit, as_throughput_unit, content_length, Absorbed, Chunk, DownloadError,
    ReadEvent, ReadStep, RemoteReader,
};

#[test]
fn byte_units_round_to_one_decimal() {
    assert_eq!(as_bytes_unit(0), "  0 B");
    assert_eq!(as_bytes_unit(5), "  5 B");
    assert_eq!(as_bytes_unit(1023), "1023 B");
    assert_eq!(as_bytes_unit(1024), "  1.0 KiB");
    assert_eq!(as_bytes_unit(1280), "  1.2 KiB");
    assert_eq!(as_bytes_unit(1536), "  1.5 KiB");
    assert_eq!(as_bytes_unit(1048576), "  1.0 MiB");
    assert_eq!(as_bytes_unit(1073741824 * 3 / 2), "  1.5 GiB");
    assert_eq!(as_bytes_unit(1048575), "1024.0 KiB");
    assert_eq!(as_throughput_unit(2048), "  2.0 KiB/s");
}

#[test]
fn byte_units_agree_with_float_formatting() {
    for size in [1usize, 999, 1024, 1100, 1280, 3840, 10_000, 123_456, 9_999_999, 1 << 31] {
        let f = size as f64;
        let expected = if f >= 1073741824.0 {
            format!("{:5.1} GiB", f / 1073741824.0)
        } else if f >= 1048576.0 {
            format!("{:5.1} MiB", f / 1048576.0)
        } else if f >= 1024.0 {
            format!("{:5.1} KiB", f / 1024.0)
        } else {
            format!("{size:3} B")
        };
        assert_eq!(as_bytes_unit(size), expected);
    }
}

#[test]
fn stats_keep_a_rolling_window() {
    let mut r = RemoteReader::new(Some(100), 0);
    assert_eq!(r.speed(), 100);
    assert_eq!(r.on_read(ReadEvent::Data(10), 0), ReadStep::Append(10));
    assert_eq!(r.downloaded_last_few_secs.len(), 0);
    assert_eq!(r.on_read(ReadEvent::Data(20), 1500), ReadStep::Append(20));
    assert_eq!(r.total_downloaded, 30);
    assert_eq!(r.downloaded_last_few_secs.iter().copied().collect::<Vec<_>>(), vec![30]);
    for k in 1..=6u64 {
        r.on_read(ReadEvent::Data(k as usize), 1500 + 1000 * k);
    }
    assert_eq!(
        r.downloaded_last_few_secs.iter().copied().collect::<Vec<_>>(),
        vec![6, 5, 4, 3, 2]
    );
    assert_eq!(r.speed(), 4);
    assert_eq!(r.eta_secs(), Some(12));
    assert_eq!(r.on_read(ReadEvent::Data(0), 9000), ReadStep::Finish);
    assert_eq!(r.on_read(ReadEvent::Failed, 9000), ReadStep::Abort);
}

#[test]
fn eta_uses_remaining_bytes() {
    let mut r = RemoteReader::new(Some(1000), 0);
    r.on_read(ReadEvent::Data(100), 0);
    r.on_read(ReadEvent::Data(100), 1000);
    assert_eq!(r.speed(), 200);
    assert_eq!(r.eta_secs(), Some(4));
    assert_eq!(RemoteReader::new(None, 0).eta_secs(), None);
}

#[test]
fn interrupted_reads_are_retried_up_to_a_cap() {
    let mut r = RemoteReader::new(None, 0);
    for _ in 0..64 {
        assert_eq!(r.on_read(ReadEvent::Interrupted, 0), ReadStep::Retry);
    }
    assert_eq!(r.on_read(ReadEvent::Interrupted, 0), ReadStep::Abort);
    r.on_read(ReadEvent::Data(1), 0);
    assert_eq!(r.on_read(ReadEvent::Interrupted, 0), ReadStep::Retry);
}

#[test]
fn download_concatenates_chunks_and_retries_interruptions() {
    let script = RefCell::new(vec![
        Chunk::Data(b"ab".to_vec()),
        Chunk::Interrupted,
        Chunk::Data(b"cd".to_vec()),
        Chunk::Data(Vec::new()),
    ]);
    let read = || script.borrow_mut().remove(0);
    let data = RemoteReader::new(Some(4), 0).download(read, || 0).ok();
    assert_eq!(data, Some(b"abcd".to_vec()));
}

#[test]
fn download_stops_on_failed_read() {
    let script = RefCell::new(vec![Chunk::Data(b"ab".to_vec()), Chunk::Failed(IoKind::ConnectionReset, "reset".to_string())]);
    let read = || script.borrow_mut().remove(0);
    let r = RemoteReader::new(None, 0).download(read, || 0);
    assert!(matches!(r, Err(DownloadError::Read(IoKind::ConnectionReset, ref m)) if m == "reset"));
    let r = RemoteReader::new(None, 0).download(|| Chunk::Interrupted, || 0);
    assert!(matches!(r, Err(DownloadError::Interrupted)));
}

#[test]
fn content_length_parses_numbers_only() {
    assert_eq!(content_length(Some("1234")), Some(1234));
    assert_eq!(content_length(Some("12a")), None);
    assert_eq!(content_length(Some("+12")), Some(12));
    assert_eq!(content_length(Some("+")), None);
    assert_eq!(content_length(Some("")), None);
    assert_eq!(content_length(Some("-1")), None);
    assert_eq!(content_length(Some("99999999999999999999999")), None);
    assert_eq!(content_length(None), None);
}

#[test]
fn absorb_appends_finishes_and_stops() {
    let mut r = RemoteReader::new(None, 0);
    let mut data = b"x".to_vec();
    assert!(matches!(r.absorb(&mut data, Chunk::Data(b"yz".to_vec()), 0), Absorbed::Continue));
    assert_eq!(data, b"xyz".to_vec());
    assert_eq!(r.total_downloaded, 2);
    assert!(matches!(r.absorb(&mut data, Chunk::Interrupted, 0), Absorbed::Continue));
    assert_eq!(r.interrupted, 1);
    assert!(matches!(r.absorb(&mut data, Chunk::Data(Vec::new()), 0), Absorbed::Finished));
    assert!(matches!(
        r.absorb(&mut data, Chunk::Failed(IoKind::UnexpectedEof, "eof".to_string()), 0),
        Absorbed::Stopped(DownloadError::Read(IoKind::UnexpectedEof, ref m)) if m == "eof"
    ));
    assert_eq!(data, b"xyz".to_vec());
}

#[test]
fn interruptions_below_the_cap_do_not_change_the_data() {
    let plain = RefCell::new(vec![Chunk::Data(b"ab".to_vec()), Chunk::Data(Vec::new())]);
    let mut noisy_chunks = vec![Chunk::Data(b"ab".to_vec())];
    for _ in 0..64 {
        noisy_chunks.push(Chunk::Interrupted);
    }
    noisy_chunks.push(Chunk::Data(Vec::new()));
    let noisy = RefCell::new(noisy_chunks);
    let a = RemoteReader::new(None, 0).download(|| plain.borrow_mut().remove(0), || 0).ok();
    let b = RemoteReader::new(None, 0).download(|| noisy.borrow_mut().remove(0), || 0).ok();
    assert_eq!(a, Some(b"ab".to_vec()));
    assert_eq!(a, b);
}

#[test]
fn download_leaves_its_statistics() {
    let script = RefCell::new(vec![Chunk::Data(b"abc".to_vec()), Chunk::Data(Vec::new())]);
    let mut stats = RemoteReader::new(Some(3), 0);
    let data = stats.download(|| script.borrow_mut().remove(0), || 0).ok();
    assert_eq!(data, Some(b"abc".to_vec()));
    assert_eq!(stats.total_downloaded, 3);
    assert_eq!(stats.eta_secs(), Some(0));
}
