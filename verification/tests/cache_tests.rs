//! The cache layer end to end: key identity, the filename codec, eviction
//! on open, first-writer-wins insertion, the atomic write plan, and the
//! whole write/expire/miss scenario.

use daily_bugle::directory::{Directory, DiskAction};
use daily_bugle::fs_cache::FsStore;
use daily_bugle::key::{sanitize, StorageKey};
use daily_bugle::store::{CacheError, LocalStorage};
use daily_bugle::timestamp::{add_days, Timestamp};

fn ts(year: u32, month: u32, day: u32, hour: u32, minute: u32, second: u32) -> Timestamp {
    Timestamp { year, month, day, hour, minute, second }
}

#[test]
fn it_works() {
    let mut store = FsStore::new();

    let user = "ces@example.com";
    let dt = "2025-10-03T17:05:00-04:00";
    let key = FsStore::make_key(user, dt);

    assert!(!store.has(&key));
    store.set(&key, b"hello world".to_vec()).unwrap();
    assert!(store.has(&key));

    let val = store.get(&key).unwrap();
    assert_eq!(val, b"hello world");

    let keys = store.keys();
    assert_eq!(keys, vec![key.clone()]);

    store.delete(&key).unwrap();
    assert!(!store.has(&key));

    // set via user/datetime helper
    let key2 = store.set_ud(user, dt, b"bytes".to_vec()).unwrap();
    assert!(store.has(&key2));

    store.clear();
    assert!(store.keys().is_empty());
}

#[test]
fn key_equality_ignores_expiry() {
    let t1 = ts(2025, 1, 1, 0, 0, 0);
    let t2 = ts(2026, 7, 15, 23, 59, 59);
    let k1 = StorageKey::new("weather", t1, Some(2));
    let k2 = StorageKey::new("weather", t2, Some(300));
    assert!(k1 == k2);
    assert_ne!(k1.expiry(), k2.expiry());
    let k3 = StorageKey::new("news", t1, Some(2));
    assert!(k1 != k3);
}

#[test]
fn file_name_round_trips() {
    let t = ts(2025, 10, 3, 17, 5, 0);
    let k = StorageKey::new("news_top_headlines", t, Some(5));
    let f = k.encoded_file_name();
    assert_eq!(f, "news_top_headlines__20251008170500.dat");
    let back = StorageKey::parse_file_name(&f).expect("the encoded name must parse");
    assert!(back == k);
    assert_eq!(back.expiry(), k.expiry());
    assert_eq!(back.constant, "news_top_headlines");

    assert!(StorageKey::parse_file_name("no-separator.dat").is_none());
    assert!(StorageKey::parse_file_name("name__short.dat").is_none());
    assert!(StorageKey::parse_file_name("name__20251301000000.dat").is_none());
}

#[test]
fn sanitize_is_idempotent_and_unambiguous() {
    for s in [
        "hello world!",
        "a  b",
        "a__b",
        "___",
        "ces@example.com",
        "2025-10-03T17:05:00-04:00",
        "héllo",
        "",
    ] {
        let once = sanitize(s);
        let twice = sanitize(&once);
        assert_eq!(once, twice);
        assert!(!once.contains("__"));
    }
    assert_eq!(sanitize("hello world!"), "hello_world_");
    assert_eq!(sanitize("a  b"), "a_b");
    assert_eq!(sanitize("a__b"), "a_b");
}

#[test]
fn open_evicts_expired_and_duplicates() {
    let now = ts(2025, 6, 1, 12, 0, 0);
    let mut dir = Directory::new();
    dir.add_file("stale__20200101000000.dat".to_string(), b"old".to_vec());
    dir.add_file("weather__20251231000000.dat".to_string(), b"one".to_vec());
    dir.add_file("weather__20261231000000.dat".to_string(), b"two".to_vec());
    dir.add_file("news__20260101120000.dat".to_string(), b"n".to_vec());

    let mut store = LocalStorage::open(&dir, now).expect("the listing is well formed");
    assert_eq!(store.len(), 2);

    let weather = StorageKey::new("weather", now, None);
    let news = StorageKey::new("news", now, None);
    let stale = StorageKey::new("stale", now, None);
    assert!(store.contains(&weather));
    assert!(store.contains(&news));
    assert!(!store.contains(&stale));

    // Among duplicates the first encountered survives.
    assert_eq!(store.get_item(&weather), Some(b"one".to_vec()));

    // Exactly the expired file and the later duplicate are removed.
    let acts = store.take_actions();
    assert_eq!(acts.len(), 2);
    match &acts[0] {
        DiskAction::Remove { name } => assert_eq!(name, "stale__20200101000000.dat"),
        _ => panic!("the first action must remove the expired file"),
    }
    match &acts[1] {
        DiskAction::Remove { name } => assert_eq!(name, "weather__20261231000000.dat"),
        _ => panic!("the second action must remove the duplicate"),
    }
}

#[test]
fn open_refuses_malformed_names() {
    let now = ts(2025, 6, 1, 12, 0, 0);
    let mut dir = Directory::new();
    dir.add_file("garbage.txt".to_string(), b"?".to_vec());
    match LocalStorage::open(&dir, now) {
        Err(CacheError::MalformedName(f)) => assert_eq!(f, "garbage.txt"),
        _ => panic!("a name outside the encoding must fail the scan"),
    }
}

#[test]
fn insert_is_first_writer_wins() {
    let now = ts(2025, 6, 1, 12, 0, 0);
    let dir = Directory::new();
    let mut store = LocalStorage::open(&dir, now).unwrap();
    let key = StorageKey::new("figma_blog", now, Some(14));
    store.insert_item(&key, &b"first".to_vec()).unwrap();
    let _ = store.take_actions();
    // A later write under the same name is a silent no-op.
    let key2 = StorageKey::new("figma_blog", add_days(&now, 1), Some(14));
    store.insert_item(&key2, &b"second".to_vec()).unwrap();
    assert!(store.take_actions().is_empty());
    assert_eq!(store.get_item(&key), Some(b"first".to_vec()));
}

#[test]
fn insert_queues_temp_write_then_rename() {
    let now = ts(2025, 6, 1, 12, 0, 0);
    let dir = Directory::new();
    let mut store = LocalStorage::open(&dir, now).unwrap();
    let key = StorageKey::new("aws_blog", now, Some(7));
    store.insert_item(&key, &b"sitemap".to_vec()).unwrap();
    let acts = store.take_actions();
    assert_eq!(acts.len(), 2);
    let final_name = key.encoded_file_name();
    let tmp_name = format!("{}.tmp", final_name);
    match &acts[0] {
        DiskAction::WriteFile { name, bytes } => {
            assert_eq!(name, &tmp_name);
            assert_eq!(bytes, b"sitemap");
        },
        _ => panic!("the contents must go to the temporary file first"),
    }
    match &acts[1] {
        DiskAction::Rename { from, to } => {
            assert_eq!(from, &tmp_name);
            assert_eq!(to, &final_name);
        },
        _ => panic!("only an atomic rename may introduce the final name"),
    }
}

#[test]
fn keys_are_sorted_ascending() {
    let mut store = FsStore::new();
    store.set("zz__20250101000000.dat", b"1".to_vec()).unwrap();
    store.set("aa__20250101000000.dat", b"2".to_vec()).unwrap();
    store.set("mm__20250101000000.dat", b"3".to_vec()).unwrap();
    assert_eq!(
        store.keys(),
        vec![
            "aa__20250101000000.dat".to_string(),
            "mm__20250101000000.dat".to_string(),
            "zz__20250101000000.dat".to_string(),
        ]
    );
}

#[test]
fn fs_store_error_paths() {
    let mut store = FsStore::new();
    store.set("k__20250101000000.dat", b"v".to_vec()).unwrap();
    match store.set("k__20250101000000.dat", b"w".to_vec()) {
        Err(CacheError::AlreadyExists) => {},
        _ => panic!("a present key must be refused"),
    }
    match store.get("missing.dat") {
        Err(CacheError::NotFound) => {},
        _ => panic!("a missing key must be not found"),
    }
    match store.delete("missing.dat") {
        Err(CacheError::NotFound) => {},
        _ => panic!("deleting a missing key must be not found"),
    }
}

#[test]
fn cache_hit_avoids_recomputation() {
    let now = ts(2025, 6, 1, 12, 0, 0);
    let dir = Directory::new();
    let mut store = LocalStorage::open(&dir, now).unwrap();
    let key = StorageKey::new("armin_ronacher", now, None);
    let mut fetches: u32 = 0;

    let first = match store.get_item(&key) {
        Some(b) => b,
        None => {
            fetches += 1;
            let fetched = b"the feed".to_vec();
            store.insert_item(&key, &fetched).unwrap();
            fetched
        },
    };
    let second = match store.get_item(&key) {
        Some(b) => b,
        None => {
            fetches += 1;
            let fetched = b"the feed".to_vec();
            store.insert_item(&key, &fetched).unwrap();
            fetched
        },
    };
    assert_eq!(fetches, 1);
    assert_eq!(first, second);
}

#[test]
fn weather_entry_expires_after_three_days() {
    // Insert under "weather" with a two-day lifetime, read it back, advance
    // the clock by three days, reopen: the entry is gone.
    let t0 = ts(2025, 6, 1, 12, 0, 0);
    let dir = Directory::new();
    let mut store = LocalStorage::open(&dir, t0).unwrap();
    let key = StorageKey::new("weather", t0, Some(2));
    let payload = b"sunny, 21 degrees".to_vec();
    store.insert_item(&key, &payload).unwrap();
    assert_eq!(store.get_item(&key), Some(payload.clone()));

    // The state a crash-free run leaves on disk.
    let mut disk = Directory::new();
    disk.add_file(key.encoded_file_name(), payload);

    let t3 = add_days(&t0, 3);
    assert!(key.is_expired(&t3));
    let mut reopened = LocalStorage::open(&disk, t3).unwrap();
    let probe = StorageKey::new("weather", t3, None);
    assert!(!reopened.contains(&probe));
    assert_eq!(reopened.get_item(&probe), None);
    let acts = reopened.take_actions();
    assert_eq!(acts.len(), 1);
    match &acts[0] {
        DiskAction::Remove { name } => assert_eq!(name, &key.encoded_file_name()),
        _ => panic!("the expired file must be removed"),
    }
}
