use comma::cache::{remember, save, Cache, CacheEntry, CacheLoadError, StateFile};
use std::collections::HashMap;

fn entry(derivation: &str, path: Option<&str>) -> CacheEntry {
    CacheEntry { derivation: derivation.to_string(), path: path.map(|p| p.to_string()) }
}

fn plain(entry: Option<CacheEntry>) -> Option<(String, Option<String>)> {
    entry.map(|e| (e.derivation, e.path))
}

fn reload(bytes: Vec<u8>) -> Cache {
    match Cache::new(StateFile::Contents(bytes)) {
        Ok(cache) => cache,
        Err(e) => panic!("the bytes of a flush hold a cache: {:?}", e),
    }
}

#[test]
fn absent_state_file_is_an_empty_cache() {
    let cache = Cache::new(StateFile::Absent).unwrap_or_else(|e| panic!("{:?}", e));
    assert!(cache.query("ls").is_none());
    assert!(!cache.needs_flush());
}

#[test]
fn unreadable_state_file_is_an_error() {
    assert_eq!(Cache::new(StateFile::Unreadable).err(), Some(CacheLoadError::Unreadable));
}

#[test]
fn corrupt_state_file_is_an_error() {
    let garbage = vec![0xffu8, 0x01, 0x02, 0x03, 0x04, 0x05, 0x06];
    assert_eq!(Cache::new(StateFile::Contents(garbage)).err(), Some(CacheLoadError::Corrupt));
}

#[test]
fn empty_state_file_is_corrupt() {
    assert_eq!(Cache::new(StateFile::Contents(Vec::new())).err(), Some(CacheLoadError::Corrupt));
}

#[test]
fn query_finds_what_update_put() {
    let mut cache = Cache::new(StateFile::Absent).unwrap_or_else(|e| panic!("{:?}", e));
    cache.update("ls", entry("nixpkgs.coreutils", None));
    assert_eq!(plain(cache.query("ls")), Some(("nixpkgs.coreutils".to_string(), None)));
    assert_eq!(plain(cache.query("cat")), None);
    assert!(cache.needs_flush());
}

#[test]
fn update_replaces_the_entry_of_a_command() {
    let mut cache = Cache::new(StateFile::Absent).unwrap_or_else(|e| panic!("{:?}", e));
    cache.update("ls", entry("coreutils.out", None));
    cache.update("cat", entry("coreutils.out", None));
    cache.update("ls", entry("busybox.out", Some("/nix/store/abc/bin/ls")));
    assert_eq!(
        plain(cache.query("ls")),
        Some(("busybox.out".to_string(), Some("/nix/store/abc/bin/ls".to_string())))
    );
    assert_eq!(plain(cache.query("cat")), Some(("coreutils.out".to_string(), None)));
}

#[test]
fn commands_are_keyed_as_they_are_written() {
    let mut cache = Cache::new(StateFile::Absent).unwrap_or_else(|e| panic!("{:?}", e));
    cache.update("ls", entry("coreutils.out", None));
    assert!(cache.query("LS").is_none());
    assert!(cache.query("/bin/ls").is_none());
    assert!(cache.query("ls ").is_none());
    assert!(cache.query("").is_none());
}

#[test]
fn delete_takes_one_entry_out() {
    let mut cache = Cache::new(StateFile::Absent).unwrap_or_else(|e| panic!("{:?}", e));
    cache.update("a", entry("pkg.a", None));
    cache.update("b", entry("pkg.b", None));
    cache.update("c", entry("pkg.c", None));
    cache.delete("b");
    assert_eq!(plain(cache.query("a")), Some(("pkg.a".to_string(), None)));
    assert_eq!(plain(cache.query("b")), None);
    assert_eq!(plain(cache.query("c")), Some(("pkg.c".to_string(), None)));
}

#[test]
fn delete_of_a_missing_entry_marks_the_cache_dirty() {
    let mut cache = Cache::new(StateFile::Absent).unwrap_or_else(|e| panic!("{:?}", e));
    assert!(!cache.needs_flush());
    cache.delete("nothing");
    assert!(cache.needs_flush());
    assert!(cache.flush().is_some());
}

#[test]
fn empty_takes_every_entry_out() {
    let mut cache = Cache::new(StateFile::Absent).unwrap_or_else(|e| panic!("{:?}", e));
    cache.update("a", entry("pkg.a", None));
    cache.update("b", entry("pkg.b", None));
    assert!(cache.flush().is_some());
    cache.empty();
    assert!(cache.query("a").is_none());
    assert!(cache.query("b").is_none());
    assert!(cache.needs_flush());
}

#[test]
fn flush_without_a_change_hands_out_nothing() {
    let mut cache = Cache::new(StateFile::Absent).unwrap_or_else(|e| panic!("{:?}", e));
    assert!(cache.flush().is_none());
}

#[test]
fn second_flush_hands_out_nothing() {
    let mut cache = Cache::new(StateFile::Absent).unwrap_or_else(|e| panic!("{:?}", e));
    cache.update("ls", entry("nixpkgs.coreutils", None));
    assert!(cache.flush().is_some());
    assert!(!cache.needs_flush());
    assert!(cache.flush().is_none());
    assert_eq!(plain(cache.query("ls")), Some(("nixpkgs.coreutils".to_string(), None)));
    cache.update("cat", entry("nixpkgs.coreutils", None));
    assert!(cache.flush().is_some());
    assert!(cache.flush().is_none());
}

#[test]
fn flush_then_load_answers_as_before() {
    let mut cache = Cache::new(StateFile::Absent).unwrap_or_else(|e| panic!("{:?}", e));
    cache.update("ls", entry("nixpkgs.coreutils", None));
    cache.update("htop", entry("nixpkgs.htop", Some("/nix/store/xyz-htop/bin/htop")));
    cache.update("gone", entry("nixpkgs.gone", None));
    cache.delete("gone");
    cache.update("ls", entry("nixpkgs.busybox", Some("/nix/store/b/bin/ls")));
    cache.update("grüße", entry("nixpkgs.grüße", Some("")));
    let bytes = cache.flush().unwrap_or_else(|| panic!("a changed cache is flushed"));
    let loaded = reload(bytes);
    assert!(!loaded.needs_flush());
    for command in ["ls", "htop", "gone", "grüße", "other", ""] {
        assert_eq!(plain(loaded.query(command)), plain(cache.query(command)));
    }
    assert_eq!(
        plain(loaded.query("ls")),
        Some(("nixpkgs.busybox".to_string(), Some("/nix/store/b/bin/ls".to_string())))
    );
    assert_eq!(plain(loaded.query("grüße")), Some(("nixpkgs.grüße".to_string(), Some(String::new()))));
    assert_eq!(plain(loaded.query("gone")), None);
}

#[test]
fn flush_after_empty_then_load_is_empty() {
    let mut cache = Cache::new(StateFile::Absent).unwrap_or_else(|e| panic!("{:?}", e));
    cache.update("ls", entry("nixpkgs.coreutils", None));
    cache.empty();
    let bytes = cache.flush().unwrap_or_else(|| panic!("a changed cache is flushed"));
    let loaded = reload(bytes);
    assert!(loaded.query("ls").is_none());
}

#[test]
fn flushed_bytes_are_the_encoding_of_a_map() {
    let mut cache = Cache::new(StateFile::Absent).unwrap_or_else(|e| panic!("{:?}", e));
    cache.update("ls", entry("nixpkgs.coreutils", None));
    cache.update("htop", entry("nixpkgs.htop", Some("/nix/store/xyz-htop/bin/htop")));
    let bytes = cache.flush().unwrap_or_else(|| panic!("a changed cache is flushed"));
    assert_ne!(bytes, Vec::<u8>::new());
    let map: HashMap<String, (String, Option<String>)> =
        bitcode::decode(&bytes).unwrap_or_else(|e| panic!("{}", e));
    assert_eq!(map.len(), 2);
    assert_eq!(map.get("ls"), Some(&("nixpkgs.coreutils".to_string(), None)));
    assert_eq!(
        map.get("htop"),
        Some(&("nixpkgs.htop".to_string(), Some("/nix/store/xyz-htop/bin/htop".to_string())))
    );
}

#[test]
fn encoded_map_loads_as_a_cache() {
    let mut map: HashMap<String, (String, Option<String>)> = HashMap::new();
    map.insert("ls".to_string(), ("coreutils.out".to_string(), None));
    map.insert("vi".to_string(), ("vim.out".to_string(), Some("/nix/store/v/bin/vi".to_string())));
    let loaded = reload(bitcode::encode(&map));
    assert_eq!(plain(loaded.query("ls")), Some(("coreutils.out".to_string(), None)));
    assert_eq!(
        plain(loaded.query("vi")),
        Some(("vim.out".to_string(), Some("/nix/store/v/bin/vi".to_string())))
    );
    assert_eq!(plain(loaded.query("ed")), None);
}

#[test]
fn later_entry_for_a_command_counts_on_load() {
    let list: Vec<(String, (String, Option<String>))> = vec![
        ("ls".to_string(), ("first.out".to_string(), None)),
        ("cat".to_string(), ("coreutils.out".to_string(), None)),
        ("ls".to_string(), ("second.out".to_string(), Some("/p".to_string()))),
    ];
    let loaded = reload(bitcode::encode(&list));
    assert_eq!(plain(loaded.query("ls")), Some(("second.out".to_string(), Some("/p".to_string()))));
    assert_eq!(plain(loaded.query("cat")), Some(("coreutils.out".to_string(), None)));
}

#[test]
fn remember_without_a_cache_does_nothing() {
    let mut none: Option<Cache> = None;
    remember(&mut none, "ls", entry("coreutils.out", None));
    assert!(none.is_none());
    assert!(save(&mut none).is_none());
}

#[test]
fn remember_and_save_with_a_cache() {
    let mut some = Some(Cache::new(StateFile::Absent).unwrap_or_else(|e| panic!("{:?}", e)));
    assert!(save(&mut some).is_none());
    remember(&mut some, "ls", entry("coreutils.out", None));
    let bytes = save(&mut some).unwrap_or_else(|| panic!("a changed cache is saved"));
    assert!(save(&mut some).is_none());
    let loaded = reload(bytes);
    assert_eq!(plain(loaded.query("ls")), Some(("coreutils.out".to_string(), None)));
}
