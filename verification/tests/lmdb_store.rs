use futures::Future;
use futures_cpupool::CpuPool;
use lmdb::{Database, Environment, RoTransaction, RwTransaction, Transaction, WriteFlags};
use sccache::cache::engine::{Action, Event, Step};
use sccache::cache::lmdb::{LMDBCache, NOT_FOUND};
use sccache::cache::model::BAD_TXN;
use sccache::cache::{Cache, CacheWrite};
use sccache::errors::{EngineError, Error};
use std::path::Path;
use std::sync::Arc;
use std::time::{Duration, Instant};
use tempdir::TempDir;

const MAP_FULL: i32 = -30792;

/// An opened store on disk.
struct Store {
    cache: LMDBCache,
    env: Environment,
    db: Database,
}

enum Txn<'env> {
    Closed,
    Read(RoTransaction<'env>),
    Write(RwTransaction<'env>),
}

fn answer<T>(result: Result<T, lmdb::Error>) -> Event {
    match result {
        Ok(_) => Event::Done,
        Err(error) => Event::Failed(EngineError { code: error.to_err_code() }),
    }
}

fn open(path: &Path, map_size: u64) -> Result<Store, Error> {
    let mut env: Option<Environment> = None;
    let mut db: Option<Database> = None;
    let mut step = LMDBCache::new(path.to_str().expect("path converts to string"), map_size);
    loop {
        let (op, action) = match step {
            Step::Finished(result) => {
                return result.map(|cache| Store { cache, env: env.unwrap(), db: db.unwrap() });
            }
            Step::Perform { op, action } => (op, action),
        };
        let event = match action {
            Action::OpenEnvironment { path, map_size } => {
                match Environment::new().set_map_size(map_size).open(Path::new(&path)) {
                    Ok(opened) => {
                        env = Some(opened);
                        Event::Done
                    }
                    Err(error) => Event::Failed(EngineError { code: error.to_err_code() }),
                }
            }
            Action::OpenDatabase => match env.as_ref().unwrap().open_db(None) {
                Ok(opened) => {
                    db = Some(opened);
                    Event::Done
                }
                Err(error) => Event::Failed(EngineError { code: error.to_err_code() }),
            },
            other => panic!("an opening asked for {:?}", other),
        };
        step = op.step(event);
    }
}

fn call<'env>(store: &'env Store, txn: &mut Txn<'env>, action: Action) -> Event {
    match action {
        Action::BeginRead => match store.env.begin_ro_txn() {
            Ok(begun) => {
                *txn = Txn::Read(begun);
                Event::Done
            }
            Err(error) => Event::Failed(EngineError { code: error.to_err_code() }),
        },
        Action::BeginWrite => match store.env.begin_rw_txn() {
            Ok(begun) => {
                *txn = Txn::Write(begun);
                Event::Done
            }
            Err(error) => Event::Failed(EngineError { code: error.to_err_code() }),
        },
        Action::Lookup { key } => {
            let found = match txn {
                Txn::Read(open) => open.get(store.db, &key).map(Vec::from),
                Txn::Write(open) => open.get(store.db, &key).map(Vec::from),
                Txn::Closed => panic!("a lookup without a transaction"),
            };
            match found {
                Ok(value) => Event::Found(value),
                Err(error) => Event::Failed(EngineError { code: error.to_err_code() }),
            }
        }
        Action::Write { key, value } => match txn {
            Txn::Write(open) => answer(open.put(store.db, &key, &value, WriteFlags::empty())),
            _ => panic!("a write without a read-write transaction"),
        },
        Action::Commit => match std::mem::replace(txn, Txn::Closed) {
            Txn::Read(open) => answer(open.commit()),
            Txn::Write(open) => answer(open.commit()),
            Txn::Closed => panic!("a commit without a transaction"),
        },
        Action::Abort => match std::mem::replace(txn, Txn::Closed) {
            Txn::Read(open) => {
                open.abort();
                Event::Done
            }
            Txn::Write(open) => {
                open.abort();
                Event::Done
            }
            Txn::Closed => panic!("an abort without a transaction"),
        },
        other => panic!("an operation asked for {:?}", other),
    }
}

fn get(store: &Store, key: &str) -> Result<Cache, Error> {
    let mut txn = Txn::Closed;
    let mut step = store.cache.get(Vec::from(key));
    loop {
        match step {
            Step::Finished(result) => return result,
            Step::Perform { op, action } => step = op.step(call(store, &mut txn, action)),
        }
    }
}

fn put(store: &Store, key: &str, entry: CacheWrite) -> Result<Duration, Error> {
    let mut txn = Txn::Closed;
    let mut step = store.cache.put(Vec::from(key), entry);
    loop {
        match step {
            Step::Finished(result) => return result,
            Step::Perform { op, action } => step = op.step(call(store, &mut txn, action)),
        }
    }
}

fn entry_with(name: &str, data: Vec<u8>) -> CacheWrite {
    let mut entry = CacheWrite::new();
    entry.add_stream(name, data).unwrap();
    entry
}

#[test]
fn lmdb_store_misses_then_hits_after_a_store() {
    let dir = TempDir::new("cache").unwrap();
    let store = open(dir.path(), 10 << 20).unwrap();
    assert_eq!(store.cache.location(), dir.path().to_str().unwrap());
    assert!(matches!(get(&store, "k1"), Ok(Cache::Miss)));

    let around = Instant::now();
    let elapsed = put(&store, "k1", entry_with("obj", vec![0xDE, 0xAD, 0xBE, 0xEF])).unwrap();
    let measured = around.elapsed();
    assert!(elapsed > Duration::ZERO);
    assert!(elapsed <= measured);

    match get(&store, "k1") {
        Ok(Cache::Hit(entry)) => {
            assert_eq!(entry.stream_names(), vec!["obj".to_string()]);
            assert_eq!(entry.get_stream("obj"), Ok(vec![0xDE, 0xAD, 0xBE, 0xEF]));
        }
        other => panic!("expected a hit, got {:?}", other),
    }
    assert!(matches!(get(&store, "k2"), Ok(Cache::Miss)));
}

#[test]
fn lmdb_store_too_small_for_the_entry_fails_the_store_and_keeps_the_miss() {
    let dir = TempDir::new("cache").unwrap();
    let store = open(dir.path(), 64 << 10).unwrap();
    let result = put(&store, "k1", entry_with("obj", vec![7; 1 << 20]));
    assert_eq!(result.err(), Some(Error::Transaction(EngineError { code: MAP_FULL })));
    assert!(matches!(get(&store, "k1"), Ok(Cache::Miss)));
}

#[test]
fn lmdb_store_keeps_entries_when_it_is_opened_again() {
    let dir = TempDir::new("cache").unwrap();
    {
        let store = open(dir.path(), 10 << 20).unwrap();
        put(&store, "k1", entry_with("obj", vec![1, 2, 3])).unwrap();
        put(&store, "k1", entry_with("obj", vec![4, 5])).unwrap();
    }
    let store = open(dir.path(), 10 << 20).unwrap();
    match get(&store, "k1") {
        Ok(Cache::Hit(entry)) => assert_eq!(entry.get_stream("obj"), Ok(vec![4, 5])),
        other => panic!("expected a hit, got {:?}", other),
    }
}

#[test]
fn lmdb_store_that_is_not_there_cannot_be_opened() {
    let dir = TempDir::new("cache").unwrap();
    let missing = dir.path().join("missing");
    let result = open(&missing, 10 << 20);
    assert_eq!(result.err(), Some(Error::Open(EngineError { code: 2 })));
}

#[test]
fn lmdb_store_refuses_an_empty_key() {
    let dir = TempDir::new("cache").unwrap();
    let store = open(dir.path(), 10 << 20).unwrap();
    let result = get(&store, "");
    assert_eq!(result.err(), Some(Error::Transaction(EngineError { code: -30781 })));
    let result = put(&store, "", entry_with("obj", vec![1]));
    assert_eq!(result.err(), Some(Error::Transaction(EngineError { code: -30781 })));
}

#[test]
fn lmdb_names_its_errors_by_the_codes_that_the_library_knows() {
    assert_eq!(lmdb::Error::NotFound.to_err_code(), NOT_FOUND);
    assert_eq!(lmdb::Error::BadTxn.to_err_code(), BAD_TXN);
    assert_eq!(lmdb::Error::MapFull.to_err_code(), MAP_FULL);
}

#[test]
fn lmdb_store_answers_every_operation_sent_to_a_pool() {
    let dir = TempDir::new("cache").unwrap();
    let store = Arc::new(open(dir.path(), 10 << 20).unwrap());
    let pool = CpuPool::new(4);
    let stores: Vec<_> = (0..16u8)
        .map(|n| {
            let store = store.clone();
            pool.spawn_fn(move || put(&store, &format!("k{}", n), entry_with("obj", vec![n; 100])))
        })
        .collect();
    for stored in stores {
        assert!(stored.wait().is_ok());
    }
    let lookups: Vec<_> = (0..32u8)
        .map(|n| {
            let store = store.clone();
            pool.spawn_fn(move || get(&store, &format!("k{}", n)))
        })
        .collect();
    for (n, lookup) in lookups.into_iter().enumerate() {
        match lookup.wait() {
            Ok(Cache::Hit(entry)) => {
                assert!(n < 16);
                assert_eq!(entry.get_stream("obj"), Ok(vec![n as u8; 100]));
            }
            Ok(Cache::Miss) => assert!(n >= 16),
            Err(error) => panic!("lookup {} failed with {:?}", n, error),
        }
    }
}
