use wavoic::library::{
    display_name_for, display_name_from_stem, format_hex16, uuid_like, Category, Library, LibraryItem,
};

fn is_hex16(s: &str) -> bool {
    s.len() == 16 && s.chars().all(|c| c.is_ascii_digit() || ('a'..='f').contains(&c))
}

#[test]
fn add_and_retrieve() {
    let mut lib = Library::default();
    let id = lib.add_file("/tmp/song.mp3".to_string(), Category::Bgm).id.clone();
    assert_eq!(lib.get(&id).unwrap().display_name, "song");
}

#[test]
fn added_item_has_fresh_hex_id_and_no_hotkey() {
    let mut lib = Library::new();
    let item = lib.add_file("/tmp/x.wav".to_string(), Category::Sfx).clone();
    assert!(is_hex16(&item.id));
    assert_eq!(item.path, "/tmp/x.wav");
    assert_eq!(item.category, Category::Sfx);
    assert_eq!(item.hotkey, None);
    assert_eq!(lib.items().len(), 1);
}

#[test]
fn add_with_same_id_replaces() {
    let mut lib = Library::new();
    lib.add_file_with_id("abc".to_string(), "/a/one.mp3".to_string(), Category::Bgm);
    lib.add_file_with_id("def".to_string(), "/a/two.mp3".to_string(), Category::Sfx);
    let it = lib.add_file_with_id("abc".to_string(), "/a/three.ogg".to_string(), Category::VoiceLine);
    assert_eq!(it.display_name, "three");
    assert_eq!(lib.items().len(), 2);
    let got = lib.get("abc").unwrap();
    assert_eq!(got.path, "/a/three.ogg");
    assert_eq!(got.category, Category::VoiceLine);
    assert_eq!(lib.get("def").unwrap().display_name, "two");
}

#[test]
fn remove_drops_only_that_item() {
    let mut lib = Library::new();
    lib.add_file_with_id("a".to_string(), "/s/a.mp3".to_string(), Category::Bgm);
    lib.add_file_with_id("b".to_string(), "/s/b.mp3".to_string(), Category::Bgm);
    lib.remove("a");
    assert!(lib.get("a").is_none());
    assert_eq!(lib.get("b").unwrap().id, "b");
    lib.remove("zzz");
    assert_eq!(lib.items().len(), 1);
}

#[test]
fn set_hotkey_binds_and_unbinds() {
    let mut lib = Library::new();
    lib.add_file_with_id("a".to_string(), "/s/a.mp3".to_string(), Category::Sfx);
    lib.set_hotkey("a", Some("Ctrl+Shift+F1".to_string()));
    let it = lib.get("a").unwrap();
    assert_eq!(it.hotkey.as_deref(), Some("Ctrl+Shift+F1"));
    assert_eq!(it.display_name, "a");
    assert_eq!(it.path, "/s/a.mp3");
    lib.set_hotkey("a", None);
    assert_eq!(lib.get("a").unwrap().hotkey, None);
    lib.set_hotkey("missing", Some("F2".to_string()));
    assert!(lib.get("missing").is_none());
    assert_eq!(lib.items().len(), 1);
}

#[test]
fn insert_stores_under_item_id() {
    let mut lib = Library::new();
    lib.insert(LibraryItem {
        id: "k1".to_string(),
        path: "/p/q.flac".to_string(),
        display_name: "q".to_string(),
        category: Category::Bgm,
        hotkey: Some("F3".to_string()),
    });
    assert_eq!(lib.get("k1").unwrap().hotkey.as_deref(), Some("F3"));
}

#[test]
fn display_names_come_from_the_stem() {
    assert_eq!(display_name_for("/tmp/song.mp3"), "song");
    assert_eq!(display_name_for("/tmp/archive.tar.gz"), "archive.tar");
    assert_eq!(display_name_for("/tmp/.hidden"), ".hidden");
    assert_eq!(display_name_for("noext"), "noext");
    assert_eq!(display_name_for("/"), "audio");
    assert_eq!(display_name_for(""), "audio");
    assert_eq!(display_name_from_stem(None), "audio");
    assert_eq!(display_name_from_stem(Some("x".to_string())), "x");
}

#[test]
fn hex_ids_are_sixteen_lower_digits() {
    assert_eq!(format_hex16(0), "0000000000000000");
    assert_eq!(format_hex16(0xdead_beef), "00000000deadbeef");
    assert_eq!(format_hex16(u64::MAX), "ffffffffffffffff");
    assert_eq!(format_hex16(0x0123_4567_89ab_cdef), format!("{:016x}", 0x0123_4567_89ab_cdefu64));
    assert!(is_hex16(&uuid_like("/tmp/song.mp3")));
}

#[test]
fn two_added_files_get_their_own_entries() {
    let mut lib = Library::new();
    let a = lib.add_file("/tmp/a.mp3".to_string(), Category::Sfx).id.clone();
    let b = lib.add_file("/tmp/b.mp3".to_string(), Category::Sfx).id.clone();
    assert_ne!(a, b);
    assert_eq!(lib.items().len(), 2);
    let copy = lib.clone();
    assert_eq!(copy.get(&a).unwrap().display_name, "a");
}
