use sccache::cache::engine::{Action, Event, Step};
use sccache::cache::lmdb::{reports_absence, Get, LMDBCache, Put, NOT_FOUND};
use sccache::cache::{Cache, CacheWrite};
use sccache::errors::{CodecError, EngineError, Error};
use std::fmt::Debug;
use std::time::Duration;

fn failed(code: i32) -> Event {
    Event::Failed(EngineError { code })
}

fn asked<O: Debug, T: Debug>(step: Step<O, T>) -> (O, Action) {
    match step {
        Step::Perform { op, action } => (op, action),
        Step::Finished(result) => panic!("the operation ended with {:?}", result),
    }
}

fn ended<O: Debug, T: Debug>(step: Step<O, T>) -> Result<T, Error> {
    match step {
        Step::Finished(result) => result,
        Step::Perform { action, .. } => panic!("the operation asked for {:?}", action),
    }
}

fn opened(path: &str) -> LMDBCache {
    let (open, _) = asked(LMDBCache::new(path, 1 << 20));
    let (open, _) = asked(open.step(Event::Done));
    ended(open.step(Event::Done)).unwrap()
}

fn entry_with(name: &str, data: &[u8]) -> CacheWrite {
    let mut entry = CacheWrite::new();
    entry.add_stream(name, data.to_vec()).unwrap();
    entry
}

fn looked_up(key: &[u8]) -> Get {
    let (get, action) = asked(opened("/cache").get(key.to_vec()));
    assert_eq!(action, Action::BeginRead);
    let (get, action) = asked(get.step(Event::Done));
    assert_eq!(action, Action::Lookup { key: key.to_vec() });
    get
}

fn written(key: &[u8], name: &str, data: &[u8]) -> Put {
    let value = entry_with(name, data).finish().unwrap();
    let (put, action) = asked(opened("/cache").put(key.to_vec(), entry_with(name, data)));
    assert_eq!(action, Action::BeginWrite);
    let (put, action) = asked(put.step(Event::Done));
    assert_eq!(action, Action::Write { key: key.to_vec(), value });
    put
}

#[test]
fn opening_asks_for_the_environment_and_then_the_database() {
    let (open, action) = asked(LMDBCache::new("/var/cache/objects", 10 << 20));
    assert_eq!(
        action,
        Action::OpenEnvironment { path: "/var/cache/objects".to_string(), map_size: 10 << 20 }
    );
    let (open, action) = asked(open.step(Event::Done));
    assert_eq!(action, Action::OpenDatabase);
    let cache = ended(open.step(Event::Done)).unwrap();
    assert_eq!(cache.location(), "/var/cache/objects");
    assert_eq!(cache.current_size(), None);
    assert_eq!(cache.max_size(), None);
}

#[test]
fn the_map_size_is_cut_to_the_word() {
    let (_, action) = asked(LMDBCache::new("/cache", u64::MAX));
    assert_eq!(
        action,
        Action::OpenEnvironment { path: "/cache".to_string(), map_size: u64::MAX as usize }
    );
}

#[test]
fn an_environment_that_does_not_open_gives_no_handle() {
    let (open, _) = asked(LMDBCache::new("/nowhere", 4096));
    let result = ended(open.step(failed(2)));
    assert_eq!(result.err(), Some(Error::Open(EngineError { code: 2 })));
}

#[test]
fn a_database_that_does_not_open_gives_no_handle() {
    let (open, _) = asked(LMDBCache::new("/cache", 4096));
    let (open, _) = asked(open.step(Event::Done));
    let result = ended(open.step(failed(-30796)));
    assert_eq!(result.err(), Some(Error::Open(EngineError { code: -30796 })));
}

#[test]
fn only_the_engine_s_own_code_reports_absence() {
    assert_eq!(NOT_FOUND, -30798);
    assert!(reports_absence(&EngineError { code: -30798 }));
    assert!(!reports_absence(&EngineError { code: -30799 }));
    assert!(!reports_absence(&EngineError { code: -30797 }));
    assert!(!reports_absence(&EngineError { code: 0 }));
    assert!(!reports_absence(&EngineError { code: 2 }));
}

#[test]
fn a_lookup_without_a_transaction_ends_at_once() {
    let (get, _) = asked(opened("/cache").get(b"k1".to_vec()));
    let result = ended(get.step(failed(-30790)));
    assert_eq!(result.err(), Some(Error::Transaction(EngineError { code: -30790 })));
}

#[test]
fn a_key_that_is_not_found_is_a_miss() {
    let (get, action) = asked(looked_up(b"k1").step(failed(NOT_FOUND)));
    assert_eq!(action, Action::Commit);
    assert!(matches!(ended(get.step(Event::Done)), Ok(Cache::Miss)));
}

#[test]
fn an_answer_without_bytes_is_a_miss() {
    let (get, action) = asked(looked_up(b"k1").step(Event::Done));
    assert_eq!(action, Action::Commit);
    assert!(matches!(ended(get.step(Event::Done)), Ok(Cache::Miss)));
}

#[test]
fn bytes_that_are_found_are_a_hit() {
    let bytes = entry_with("obj", &[0xDE, 0xAD, 0xBE, 0xEF]).finish().unwrap();
    let (get, action) = asked(looked_up(b"k1").step(Event::Found(bytes)));
    assert_eq!(action, Action::Commit);
    match ended(get.step(Event::Done)) {
        Ok(Cache::Hit(entry)) => {
            assert_eq!(entry.stream_names(), vec!["obj".to_string()]);
            assert_eq!(entry.get_stream("obj"), Ok(vec![0xDE, 0xAD, 0xBE, 0xEF]));
        }
        other => panic!("expected a hit, got {:?}", other),
    }
}

#[test]
fn found_bytes_that_are_no_archive_are_a_codec_failure() {
    let (get, action) = asked(looked_up(b"k1").step(Event::Found(b"not an archive".to_vec())));
    assert_eq!(action, Action::Commit);
    let result = ended(get.step(Event::Done));
    assert_eq!(result.err(), Some(Error::Codec(CodecError::BadMagic)));

    let mut cut = entry_with("obj", &[1, 2, 3]).finish().unwrap();
    cut.pop();
    let (get, _) = asked(looked_up(b"k1").step(Event::Found(cut)));
    let result = ended(get.step(Event::Done));
    assert_eq!(result.err(), Some(Error::Codec(CodecError::Truncated)));

    let (get, _) = asked(looked_up(b"k1").step(Event::Found(Vec::new())));
    let result = ended(get.step(Event::Done));
    assert_eq!(result.err(), Some(Error::Codec(CodecError::Truncated)));
}

#[test]
fn a_lookup_that_fails_is_committed_and_then_an_error() {
    let (get, action) = asked(looked_up(b"k1").step(failed(5)));
    assert_eq!(action, Action::Commit);
    let result = ended(get.step(Event::Done));
    assert_eq!(result.err(), Some(Error::Transaction(EngineError { code: 5 })));
}

#[test]
fn a_commit_that_fails_is_the_result_of_the_lookup() {
    let bytes = entry_with("obj", &[1]).finish().unwrap();
    let (get, _) = asked(looked_up(b"k1").step(Event::Found(bytes)));
    let result = ended(get.step(failed(-30795)));
    assert_eq!(result.err(), Some(Error::Transaction(EngineError { code: -30795 })));

    let (get, _) = asked(looked_up(b"k1").step(failed(NOT_FOUND)));
    let result = ended(get.step(failed(5)));
    assert_eq!(result.err(), Some(Error::Transaction(EngineError { code: 5 })));

    let (get, _) = asked(looked_up(b"k1").step(failed(12)));
    let result = ended(get.step(failed(5)));
    assert_eq!(result.err(), Some(Error::Transaction(EngineError { code: 5 })));
}

#[test]
fn a_store_writes_the_archive_and_commits() {
    let (put, action) = asked(written(b"k1", "obj", &[0xDE, 0xAD]).step(Event::Done));
    assert_eq!(action, Action::Commit);
    let elapsed: Duration = ended(put.step(Event::Done)).unwrap();
    assert!(elapsed > Duration::ZERO);
    assert!(elapsed < Duration::from_secs(60));
}

#[test]
fn a_store_without_a_transaction_ends_at_once() {
    let (put, _) = asked(opened("/cache").put(b"k1".to_vec(), entry_with("obj", &[1])));
    let result = ended(put.step(failed(-30790)));
    assert_eq!(result.err(), Some(Error::Transaction(EngineError { code: -30790 })));
}

#[test]
fn a_write_that_fails_is_aborted() {
    let (put, action) = asked(written(b"k1", "obj", &[1]).step(failed(-30792)));
    assert_eq!(action, Action::Abort);
    let result = ended(put.step(Event::Done));
    assert_eq!(result.err(), Some(Error::Transaction(EngineError { code: -30792 })));
}

#[test]
fn the_error_of_the_write_outlives_the_abort() {
    let (put, action) = asked(written(b"k1", "obj", &[1]).step(failed(-30792)));
    assert_eq!(action, Action::Abort);
    let result = ended(put.step(failed(5)));
    assert_eq!(result.err(), Some(Error::Transaction(EngineError { code: -30792 })));
}

#[test]
fn a_commit_that_fails_is_the_result_of_the_store() {
    let (put, action) = asked(written(b"k1", "obj", &[1]).step(Event::Done));
    assert_eq!(action, Action::Commit);
    let result = ended(put.step(failed(28)));
    assert_eq!(result.err(), Some(Error::Transaction(EngineError { code: 28 })));
}

#[test]
fn an_answer_with_bytes_counts_as_success_where_none_are_asked_for() {
    let (open, _) = asked(LMDBCache::new("/cache", 4096));
    let (open, action) = asked(open.step(Event::Found(vec![1])));
    assert_eq!(action, Action::OpenDatabase);
    let cache = ended(open.step(Event::Found(vec![2]))).unwrap();
    let (get, _) = asked(cache.get(b"k".to_vec()));
    let (get, action) = asked(get.step(Event::Found(vec![3])));
    assert_eq!(action, Action::Lookup { key: b"k".to_vec() });
    let (get, _) = asked(get.step(failed(NOT_FOUND)));
    assert!(matches!(ended(get.step(Event::Found(vec![4]))), Ok(Cache::Miss)));
}
