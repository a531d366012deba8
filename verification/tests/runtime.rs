use std::cell::{Cell, RefCell};

use hyperscan::{
    BlockDatabase, BlockScanner, Error, Pattern, RawScratch, RawStream, Scratch, Stream,
    StreamingDatabase, StreamingScanner, VectoredDatabase, VectoredScanner, SCRATCH_BASE_BYTES,
};

fn pat(id: u32, literal: &str, caseless: bool, som: bool) -> Pattern {
    Pattern { id, literal: literal.as_bytes().to_vec(), caseless, som }
}

type NoCallback = fn(u32, u64, u64, u32) -> bool;

#[test]
fn test_scratch() {
    let db = BlockDatabase::new(vec![pat(0, "test", false, false)]);

    let s = RawScratch::allocate(&db).unwrap();

    assert_eq!(s.size().unwrap(), 2385);

    let mut s2 = s.clone();

    assert_eq!(s2.size().unwrap(), 2385);

    let db2 = VectoredDatabase::new(vec![pat(0, "foobar", false, false)]);

    assert!(s2.realloc(&db2).unwrap().size().unwrap() > s.size().unwrap());
}

#[test]
fn test_block_scan() {
    let db = BlockDatabase::new(vec![pat(0, "test", true, true)]);
    let s = RawScratch::allocate(&db).unwrap();

    db.scan("foo test bar", &s, None::<&NoCallback>).unwrap();

    let callback = |id: u32, from: u64, to: u64, flags: u32| -> bool {
        assert_eq!(id, 0);
        assert_eq!(from, 4);
        assert_eq!(to, 8);
        assert_eq!(flags, 0);

        false
    };

    assert_eq!(
        db.scan("foo test bar".as_bytes(), &s, Some(&callback)).err(),
        Some(Error::ScanTerminated)
    );
}

#[test]
fn test_vectored_scan() {
    let db = VectoredDatabase::new(vec![pat(0, "test", true, true)]);
    let s = RawScratch::allocate(&db).unwrap();

    let data = vec!["foo", "test", "bar"];

    db.scan(&data, &s, None::<&NoCallback>).unwrap();

    let callback = |id: u32, from: u64, to: u64, flags: u32| -> bool {
        assert_eq!(id, 0);
        assert_eq!(from, 3);
        assert_eq!(to, 7);
        assert_eq!(flags, 0);

        false
    };

    let data = vec!["foo".as_bytes(), "test".as_bytes(), "bar".as_bytes()];

    assert_eq!(db.scan(&data, &s, Some(&callback)).err(), Some(Error::ScanTerminated));
}

#[test]
fn test_streaming_scan() {
    let db = StreamingDatabase::new(vec![pat(0, "test", true, false)]);

    let s = RawScratch::allocate(&db).unwrap();
    let mut st: RawStream = db.open_stream(0).unwrap();

    let data = vec!["foo", "test", "bar"];
    let callback = |id: u32, from: u64, to: u64, flags: u32| -> bool {
        assert_eq!(id, 0);
        assert_eq!(from, 0);
        assert_eq!(to, 7);
        assert_eq!(flags, 0);

        true
    };

    for d in data {
        st.scan(d, &s, Some(&callback)).unwrap();
    }

    st.close(&s, Some(&callback)).unwrap();
}

#[test]
fn scratch_size_is_deterministic_and_positive() {
    let db = BlockDatabase::new(vec![pat(0, "ab", false, false), pat(1, "c", false, false)]);
    let s1 = RawScratch::allocate(&db).unwrap();
    let s2 = RawScratch::allocate(&db).unwrap();
    assert_eq!(s1.size().unwrap(), s2.size().unwrap());
    assert!(s1.size().unwrap() > 0);
    assert_eq!(s1.size().unwrap(), SCRATCH_BASE_BYTES + 3);
}

#[test]
fn realloc_never_shrinks_and_is_idempotent() {
    let big = BlockDatabase::new(vec![pat(0, "a-longer-literal", false, false)]);
    let small = BlockDatabase::new(vec![pat(0, "a", false, false)]);
    let mut s = RawScratch::allocate(&big).unwrap();
    let before = s.size().unwrap();
    s.realloc(&small).unwrap();
    assert_eq!(s.size().unwrap(), before);
    s.realloc(&big).unwrap();
    assert_eq!(s.size().unwrap(), before);
}

#[test]
fn no_callback_always_succeeds() {
    let db = BlockDatabase::new(vec![pat(0, "a", false, false)]);
    let s = RawScratch::allocate(&db).unwrap();
    db.scan("aaaaaa", &s, None::<&NoCallback>).unwrap();
    db.scan("", &s, None::<&NoCallback>).unwrap();
}

#[test]
fn callback_continuing_sees_every_match_in_order() {
    let db = BlockDatabase::new(vec![pat(0, "a", false, true)]);
    let s = RawScratch::allocate(&db).unwrap();
    let events: RefCell<Vec<(u32, u64, u64, u32)>> = RefCell::new(Vec::new());
    let callback = |id: u32, from: u64, to: u64, flags: u32| -> bool {
        events.borrow_mut().push((id, from, to, flags));
        true
    };
    db.scan("abca", &s, Some(&callback)).unwrap();
    assert_eq!(*events.borrow(), vec![(0, 0, 1, 0), (0, 3, 4, 0)]);
}

#[test]
fn callback_stopping_terminates_after_one_delivery() {
    let db = BlockDatabase::new(vec![pat(0, "a", false, false)]);
    let s = RawScratch::allocate(&db).unwrap();
    let count = Cell::new(0u32);
    let callback = |_id: u32, _from: u64, _to: u64, _flags: u32| -> bool {
        count.set(count.get() + 1);
        false
    };
    assert_eq!(db.scan("aaaa", &s, Some(&callback)).err(), Some(Error::ScanTerminated));
    assert_eq!(count.get(), 1);
}

#[test]
fn undersized_scratch_is_invalid_argument() {
    let small = BlockDatabase::new(vec![pat(0, "a", false, false)]);
    let big = BlockDatabase::new(vec![pat(0, "a-much-longer-literal", false, false)]);
    let s = RawScratch::allocate(&small).unwrap();
    assert_eq!(big.scan("aaa", &s, None::<&NoCallback>).err(), Some(Error::InvalidArgument));
}

#[test]
fn caseless_matching_ignores_ascii_case_only_when_asked() {
    let caseless = BlockDatabase::new(vec![pat(0, "TeSt", true, true)]);
    let exact = BlockDatabase::new(vec![pat(0, "TeSt", false, true)]);
    let s = RawScratch::allocate(&caseless).unwrap();
    let count = Cell::new(0u32);
    let callback = |_id: u32, from: u64, to: u64, _flags: u32| -> bool {
        assert_eq!(from, 2);
        assert_eq!(to, 6);
        count.set(count.get() + 1);
        true
    };
    caseless.scan("xxTESTxx", &s, Some(&callback)).unwrap();
    assert_eq!(count.get(), 1);
    exact.scan("xxTESTxx", &s, Some(&callback)).unwrap();
    assert_eq!(count.get(), 1);
}

#[test]
fn multiple_patterns_report_in_pattern_order_at_one_offset() {
    let db = BlockDatabase::new(vec![pat(7, "ab", false, true), pat(9, "b", false, true)]);
    let s = RawScratch::allocate(&db).unwrap();
    let events: RefCell<Vec<(u32, u64, u64, u32)>> = RefCell::new(Vec::new());
    let callback = |id: u32, from: u64, to: u64, flags: u32| -> bool {
        events.borrow_mut().push((id, from, to, flags));
        true
    };
    db.scan("ab", &s, Some(&callback)).unwrap();
    assert_eq!(*events.borrow(), vec![(7, 0, 2, 0), (9, 1, 2, 0)]);
}

#[test]
fn vectored_match_spans_buffer_boundaries() {
    let db = VectoredDatabase::new(vec![pat(0, "test", false, true)]);
    let s = RawScratch::allocate(&db).unwrap();
    let events: RefCell<Vec<(u32, u64, u64, u32)>> = RefCell::new(Vec::new());
    let callback = |id: u32, from: u64, to: u64, flags: u32| -> bool {
        events.borrow_mut().push((id, from, to, flags));
        true
    };
    let data = vec!["xte", "st", "y"];
    db.scan(&data, &s, Some(&callback)).unwrap();
    assert_eq!(*events.borrow(), vec![(0, 1, 5, 0)]);
}

#[test]
fn streaming_match_spans_chunk_boundary() {
    let db = StreamingDatabase::new(vec![pat(0, "test", false, true)]);
    let s = RawScratch::allocate(&db).unwrap();
    let mut st = db.open_stream(0).unwrap();
    let events: RefCell<Vec<(u32, u64, u64, u32)>> = RefCell::new(Vec::new());
    let callback = |id: u32, from: u64, to: u64, flags: u32| -> bool {
        events.borrow_mut().push((id, from, to, flags));
        true
    };
    st.scan("xte", &s, Some(&callback)).unwrap();
    assert_eq!(events.borrow().len(), 0);
    st.scan("st", &s, Some(&callback)).unwrap();
    assert_eq!(*events.borrow(), vec![(0, 1, 5, 0)]);
    st.close(&s, Some(&callback)).unwrap();
}

#[test]
fn closed_stream_refuses_every_call() {
    let db = StreamingDatabase::new(vec![pat(0, "test", false, false)]);
    let s = RawScratch::allocate(&db).unwrap();
    let mut st = db.open_stream(0).unwrap();
    st.close(&s, None::<&NoCallback>).unwrap();
    assert_eq!(st.scan("test", &s, None::<&NoCallback>).err(), Some(Error::InvalidArgument));
    assert_eq!(st.reset(0, &s, None::<&NoCallback>).err(), Some(Error::InvalidArgument));
    assert_eq!(st.close(&s, None::<&NoCallback>).err(), Some(Error::InvalidArgument));
}

#[test]
fn reset_clears_match_history() {
    let db = StreamingDatabase::new(vec![pat(0, "test", false, false)]);
    let s = RawScratch::allocate(&db).unwrap();
    let mut st = db.open_stream(0).unwrap();
    let events: RefCell<Vec<(u32, u64, u64, u32)>> = RefCell::new(Vec::new());
    let callback = |id: u32, from: u64, to: u64, flags: u32| -> bool {
        events.borrow_mut().push((id, from, to, flags));
        true
    };
    st.scan("test", &s, Some(&callback)).unwrap();
    assert_eq!(*events.borrow(), vec![(0, 0, 4, 0)]);
    st.reset(0, &s, Some(&callback)).unwrap();
    st.scan("test", &s, Some(&callback)).unwrap();
    assert_eq!(*events.borrow(), vec![(0, 0, 4, 0), (0, 0, 4, 0)]);
    st.close(&s, Some(&callback)).unwrap();
}

#[test]
fn cloned_scratch_grows_independently() {
    let small = BlockDatabase::new(vec![pat(0, "a", false, false)]);
    let big = BlockDatabase::new(vec![pat(0, "a-much-longer-literal", false, false)]);
    let s = RawScratch::allocate(&small).unwrap();
    let before = s.size().unwrap();
    let mut s2 = s.clone();
    s2.realloc(&big).unwrap();
    assert!(s2.size().unwrap() > before);
    assert_eq!(s.size().unwrap(), before);
}

#[test]
fn cloned_stream_progresses_independently() {
    let db = StreamingDatabase::new(vec![pat(0, "test", false, true)]);
    let s = RawScratch::allocate(&db).unwrap();
    let mut st = db.open_stream(0).unwrap();
    st.scan("te", &s, None::<&NoCallback>).unwrap();

    let mut forked = st.clone();
    let events: RefCell<Vec<(u32, u64, u64, u32)>> = RefCell::new(Vec::new());
    let callback = |id: u32, from: u64, to: u64, flags: u32| -> bool {
        events.borrow_mut().push((id, from, to, flags));
        true
    };
    forked.scan("st", &s, Some(&callback)).unwrap();
    assert_eq!(*events.borrow(), vec![(0, 0, 4, 0)]);
    forked.close(&s, Some(&callback)).unwrap();

    st.scan("st", &s, Some(&callback)).unwrap();
    assert_eq!(*events.borrow(), vec![(0, 0, 4, 0), (0, 0, 4, 0)]);
    st.close(&s, Some(&callback)).unwrap();
}

#[test]
fn empty_input_reports_nothing() {
    let db = BlockDatabase::new(vec![pat(0, "test", false, false)]);
    let s = RawScratch::allocate(&db).unwrap();
    let count = Cell::new(0u32);
    let callback = |_id: u32, _from: u64, _to: u64, _flags: u32| -> bool {
        count.set(count.get() + 1);
        false
    };
    db.scan("", &s, Some(&callback)).unwrap();
    assert_eq!(count.get(), 0);
}
