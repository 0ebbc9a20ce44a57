use hot_text::error::Error;
use hot_text::key::ResourceKey;
use hot_text::store::ResourceStore;
use hot_text::text::FromFS;

fn load_text(key: &ResourceKey, content: Result<&str, &str>) -> Result<FromFS, Error> {
    FromFS::source_path(key)?;
    FromFS::from_read(content.map(|s| s.to_string()).map_err(|e| e.to_string()))
}

#[test]
fn text_changes_after_sync() {
    let mut store: ResourceStore<FromFS> = ResourceStore::new();
    let key = ResourceKey::from_path("test.txt");
    assert!(store.get(&key).is_none());
    let i = store
        .finish_get(key.duplicate(), load_text(&key, Ok("hello")), Some(1))
        .unwrap();
    assert_eq!(i, 0);
    assert_eq!(store.get(&key).unwrap().text(), "hello");
    assert!(!store.get(&key).unwrap().mentions_draw());

    // the file is rewritten: its marker moves on
    let stale = store.stale_entries(&vec![Some(2)]);
    assert_eq!(stale, vec![0]);
    assert!(!store.get(&key).unwrap().mentions_draw());
    store
        .reload(0, load_text(&key, Ok("hello draw")), Some(2))
        .unwrap();
    assert_eq!(store.get(&key).unwrap().text(), "hello draw");
    assert!(store.get(&key).unwrap().mentions_draw());
}

#[test]
fn logical_key_refused_by_text_loader() {
    let mut store: ResourceStore<FromFS> = ResourceStore::new();
    let key = ResourceKey::logical("missing");
    let loaded = load_text(&key, Ok("unused"));
    assert!(matches!(loaded, Err(Error::CannotLoadFromLogical)));
    let r = store.finish_get(key.duplicate(), loaded, None);
    assert!(matches!(r, Err(Error::CannotLoadFromLogical)));
    assert!(store.get(&key).is_none());
    assert!(store.find(&key).is_none());
    assert_eq!(store.len(), 0);
}

#[test]
fn unchanged_file_is_not_reloaded() {
    let mut store: ResourceStore<FromFS> = ResourceStore::new();
    let key = ResourceKey::from_path("a.txt");
    store
        .finish_get(key.duplicate(), load_text(&key, Ok("alpha")), Some(7))
        .unwrap();
    let first = store.get(&key).unwrap();
    assert!(store.stale_entries(&vec![Some(7)]).is_empty());
    let second = store.get(&key).unwrap();
    assert!(std::ptr::eq(first, second));
    assert_eq!(store.get(&key).unwrap().text(), "alpha");
}

#[test]
fn vanished_file_counts_as_changed() {
    let mut store: ResourceStore<FromFS> = ResourceStore::new();
    let key = ResourceKey::from_path("gone.txt");
    store
        .finish_get(key.duplicate(), load_text(&key, Ok("x")), Some(3))
        .unwrap();
    assert_eq!(store.stale_entries(&vec![None]), vec![0]);
}

#[test]
fn logical_values_survive_every_sync() {
    let mut store: ResourceStore<u32> = ResourceStore::new();
    let name = ResourceKey::logical("config");
    let path = ResourceKey::from_path("config");
    store.finish_get::<Error>(name.duplicate(), Ok(10), None).unwrap();
    store.finish_get::<Error>(path.duplicate(), Ok(20), Some(1)).unwrap();
    assert_eq!(store.len(), 2);
    assert_eq!(store.stale_entries(&vec![Some(99), Some(5)]), vec![1]);
    assert!(store.reload::<Error>(0, Ok(11), Some(99)).is_ok());
    assert_eq!(*store.get(&name).unwrap(), 10);
    store.reload::<Error>(1, Ok(21), Some(5)).unwrap();
    assert_eq!(*store.get(&name).unwrap(), 10);
    assert_eq!(*store.get(&path).unwrap(), 21);
    assert_eq!(store.marker_at(1), Some(5));
}

#[test]
fn failing_loader_is_retried_every_time() {
    let mut store: ResourceStore<FromFS> = ResourceStore::new();
    let key = ResourceKey::from_path("locked.txt");
    for _ in 0..3 {
        assert!(store.get(&key).is_none());
        let loaded = load_text(&key, Err("permission denied"));
        match store.finish_get(key.duplicate(), loaded, Some(1)) {
            Err(Error::IOError(cause)) => assert_eq!(cause, "permission denied"),
            _ => panic!("expected an I/O error"),
        }
        assert_eq!(store.len(), 0);
    }
}

#[test]
fn failed_reload_keeps_last_good_value() {
    let mut store: ResourceStore<FromFS> = ResourceStore::new();
    let key = ResourceKey::from_path("b.txt");
    store
        .finish_get(key.duplicate(), load_text(&key, Ok("good")), Some(1))
        .unwrap();
    let r = store.reload(0, load_text(&key, Err("no such file")), None);
    assert!(matches!(r, Err(Error::IOError(_))));
    assert_eq!(store.get(&key).unwrap().text(), "good");
    assert_eq!(store.marker_at(0), Some(1));
    assert_eq!(store.stale_entries(&vec![None]), vec![0]);
}

#[test]
fn text_round_trips_exactly() {
    let t = "line one\nline two\n\n";
    let r = FromFS::from_read(Ok(t.to_string())).unwrap();
    assert_eq!(r.text(), t);
    assert_eq!(r.0, t);
}

#[test]
fn keys_match_by_variant_and_text() {
    let a = ResourceKey::from_path("x");
    let b = ResourceKey::from_path("x");
    let c = ResourceKey::logical("x");
    assert!(a.same(&b));
    assert!(!a.same(&c));
    assert!(a.is_path());
    assert!(!c.is_path());
    assert!(!a.same(&ResourceKey::from_path("y")));
    let mut store: ResourceStore<u8> = ResourceStore::new();
    store.finish_get::<Error>(a.duplicate(), Ok(1), Some(0)).unwrap();
    store.finish_get::<Error>(c.duplicate(), Ok(2), None).unwrap();
    assert_eq!(*store.get(&b).unwrap(), 1);
    assert_eq!(*store.get(&c).unwrap(), 2);
    assert_eq!(store.find(&c), Some(1));
    assert!(store.key_at(1).same(&c));
    assert_eq!(*store.value_at(0), 1);
}

#[test]
fn source_path_of_path_key() {
    let key = ResourceKey::from_path("dir/test.rhai");
    assert_eq!(FromFS::source_path(&key).unwrap(), "dir/test.rhai");
}

#[test]
fn error_messages() {
    assert_eq!(Error::CannotLoadFromFS.message(), "cannot load from file system");
    assert_eq!(Error::CannotLoadFromLogical.message(), "cannot load from logical");
    assert_eq!(
        Error::IOError("file not found".to_string()).message(),
        "IO error: file not found"
    );
    assert!(Error::CannotLoadFromFS.is_unsupported_key());
    assert!(Error::CannotLoadFromLogical.is_unsupported_key());
    assert!(!Error::IOError(String::new()).is_unsupported_key());
}

#[test]
fn draw_is_found_anywhere_in_the_text() {
    let yes = FromFS::from_read(Ok("please draw now".to_string())).unwrap();
    let no = FromFS::from_read(Ok("dra w".to_string())).unwrap();
    let start = FromFS::from_read(Ok("drawing".to_string())).unwrap();
    assert!(yes.mentions_draw());
    assert!(!no.mentions_draw());
    assert!(start.mentions_draw());
}

#[test]
fn sync_isolates_failures() {
    let mut store: ResourceStore<FromFS> = ResourceStore::new();
    let a = ResourceKey::from_path("a.txt");
    let b = ResourceKey::from_path("b.txt");
    let c = ResourceKey::logical("c");
    store.finish_get(a.duplicate(), load_text(&a, Ok("a1")), Some(1)).unwrap();
    store.finish_get(b.duplicate(), load_text(&b, Ok("b1")), Some(1)).unwrap();
    store.finish_get::<Error>(c.duplicate(), Ok(FromFS("c1".to_string())), None).unwrap();
    let stale = store.stale_entries(&vec![Some(2), Some(2), Some(2)]);
    assert_eq!(stale, vec![0, 1]);
    let errors = store.sync(vec![
        (0, load_text(&a, Err("busy")), Some(2)),
        (1, load_text(&b, Ok("b2")), Some(2)),
        (2, Ok(FromFS("c2".to_string())), Some(2)),
    ]);
    assert_eq!(errors.len(), 1);
    assert_eq!(errors[0].message(), "IO error: busy");
    assert_eq!(store.get(&a).unwrap().text(), "a1");
    assert_eq!(store.get(&b).unwrap().text(), "b2");
    assert_eq!(store.get(&c).unwrap().text(), "c1");
    assert_eq!(store.stale_entries(&vec![Some(2), Some(2), Some(2)]), vec![0]);
}
