use bytes::Bytes;
use pooled_io::pool::CheckoutSlot;
use pooled_io::read::{begin_attempt, finish_attempt, finish_attempt_bytes, ReadEvent, ReadOutcome};
use pooled_io::READ_BUFFER_CAPACITY;

#[test]
fn test_pooled_read() {
    let test_data = b"Hello, World!";
    let mut slot = CheckoutSlot::new(READ_BUFFER_CAPACITY);

    // first read-chunk call: the stream yields all 13 bytes at once
    let (mut buf, eff) = begin_attempt(&mut slot, 10000).expect("no checkout is outstanding");
    assert_eq!(eff, 10000);
    buf[..test_data.len()].copy_from_slice(test_data);
    let outcome = finish_attempt_bytes(&mut slot, buf, ReadEvent::Filled(test_data.len()));
    match outcome {
        ReadOutcome::Complete(bytes) => {
            assert_eq!(bytes, Some(Bytes::from_static(test_data)));
            assert_eq!(bytes.unwrap().len(), test_data.len());
        }
        _ => panic!("expected data"),
    }

    // the source is exhausted: the next call reports end-of-stream
    let (buf, _) = begin_attempt(&mut slot, 10000).expect("buffer was returned");
    let outcome = finish_attempt_bytes(&mut slot, buf, ReadEvent::Filled(0));
    assert!(matches!(outcome, ReadOutcome::Complete(None)));
}

#[test]
fn test_chunked_reads_reconstruct_source() {
    let source = b"0123456789";
    let cap = 4usize; // size cap smaller than the total input length
    let mut slot = CheckoutSlot::new(64);
    let mut rebuilt: Vec<u8> = Vec::new();
    let mut offset = 0usize;
    loop {
        let (mut buf, eff) = begin_attempt(&mut slot, cap).expect("no checkout is outstanding");
        assert_eq!(eff, cap);
        let n = eff.min(source.len() - offset);
        buf[..n].copy_from_slice(&source[offset..offset + n]);
        offset += n;
        match finish_attempt_bytes(&mut slot, buf, ReadEvent::Filled(n)) {
            ReadOutcome::Complete(Some(chunk)) => {
                assert!(chunk.len() <= cap);
                rebuilt.extend_from_slice(&chunk);
            }
            ReadOutcome::Complete(None) => break,
            _ => panic!("unexpected outcome"),
        }
    }
    assert_eq!(rebuilt, source);
}

#[test]
fn test_eof_does_not_invoke_transform() {
    let mut slot = CheckoutSlot::new(32);
    let (buf, _) = begin_attempt(&mut slot, 32).expect("no checkout is outstanding");
    let outcome: ReadOutcome<u8> = finish_attempt(&mut slot, buf, ReadEvent::Filled(0), |_s: &[u8]| {
        panic!("transform must not run on end-of-stream")
    });
    assert!(matches!(outcome, ReadOutcome::Complete(None)));
}

#[test]
fn test_pending_releases_checkout() {
    let mut slot = CheckoutSlot::new(32);
    // an attempt that cannot complete: the buffer goes back before suspension
    let (buf, _) = begin_attempt(&mut slot, 32).expect("no checkout is outstanding");
    let outcome: ReadOutcome<Bytes> = finish_attempt_bytes(&mut slot, buf, ReadEvent::Pending);
    assert!(matches!(outcome, ReadOutcome::NotReady));

    // the in-flight operation is discarded here; a fresh call still succeeds
    let (mut buf, _) = begin_attempt(&mut slot, 32).expect("the not-ready path returned the buffer");
    buf[..2].copy_from_slice(b"ok");
    match finish_attempt_bytes(&mut slot, buf, ReadEvent::Filled(2)) {
        ReadOutcome::Complete(Some(chunk)) => assert_eq!(&chunk[..], b"ok"),
        _ => panic!("expected data"),
    }
}

#[test]
fn test_read_error_propagates_unchanged() {
    let mut slot = CheckoutSlot::new(32);
    let (buf, _) = begin_attempt(&mut slot, 32).expect("no checkout is outstanding");
    let err = std::io::Error::new(std::io::ErrorKind::PermissionDenied, "denied at the source");
    match finish_attempt_bytes(&mut slot, buf, ReadEvent::Failed(err)) {
        ReadOutcome::Failed(e) => {
            assert_eq!(e.kind(), std::io::ErrorKind::PermissionDenied);
            assert_eq!(format!("{e}"), "denied at the source");
        }
        _ => panic!("expected the error back"),
    }

    // the failing path returned the buffer: the slot still serves reads
    let (buf, _) = begin_attempt(&mut slot, 32).expect("the failure path returned the buffer");
    let outcome = finish_attempt_bytes(&mut slot, buf, ReadEvent::Filled(0));
    assert!(matches!(outcome, ReadOutcome::Complete(None)));
}

#[test]
fn test_read_attempt_whole_step() {
    let mut slot = CheckoutSlot::new(64);
    let outcome: ReadOutcome<Vec<u8>> = pooled_io::read::read_attempt(
        &mut slot,
        16,
        |mut buf: Vec<u8>, eff: usize| {
            assert_eq!(eff, 16);
            buf[..5].copy_from_slice(b"hello");
            (buf, ReadEvent::Filled(5))
        },
        |s: &[u8]| s.to_vec(),
    );
    match outcome {
        ReadOutcome::Complete(Some(v)) => assert_eq!(v, b"hello"),
        _ => panic!("expected data"),
    }

    // the step checked the buffer back in: the next step starts cleanly
    let outcome: ReadOutcome<Vec<u8>> = pooled_io::read::read_attempt(
        &mut slot,
        16,
        |buf: Vec<u8>, _eff: usize| (buf, ReadEvent::Filled(0)),
        |s: &[u8]| s.to_vec(),
    );
    assert!(matches!(outcome, ReadOutcome::Complete(None)));
}
