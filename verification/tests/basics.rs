use vitruvius::collections::{Assoc, KeySet};
use vitruvius::paths::{
    file_name, has_vault_extension, is_below, join_path, rel_to_abs, rel_to_vault_abs,
    relative_path, unsafe_rel_path,
};
use vitruvius::pieces::cut;
use vitruvius::storage::{chunk_at, count_chunks, split_chunks, FileTransferState};
use vitruvius::text::{
    contains_text, decimal_text, join_texts, less_text, split_text, strip_prefix_text,
    strip_suffix_text, trim_text,
};

#[test]
fn texts_are_cut_and_joined() {
    assert_eq!(split_text("a/b//c", '/'), vec!["a", "b", "", "c"]);
    assert_eq!(split_text("", '/'), vec![""]);
    assert_eq!(join_texts(&vec!["a".to_string(), "b".to_string()], "/"), "a/b");
    assert_eq!(decimal_text(0), "0");
    assert_eq!(decimal_text(u64::MAX), "18446744073709551615");
    assert_eq!(strip_prefix_text("vault.vit", "vault"), Some(".vit".to_string()));
    assert_eq!(strip_suffix_text("vault.vit", ".vit"), Some("vault".to_string()));
    assert_eq!(strip_suffix_text("vault", ".vit"), None);
    assert!(contains_text("encrypted", "crypt"));
    assert!(!contains_text("encrypted", "crypts"));
    assert!(less_text("a", "a/b"));
    assert!(!less_text("b", "a/b"));
    assert_eq!(trim_text(" \t\u{3000}name \n"), "name");
    assert_eq!(trim_text(" \n"), "");
}

#[test]
fn paths_lead_where_the_system_takes_them() {
    let root = std::path::Path::new("/sync");
    for rel in ["a.txt", "a/b.txt", "/etc/x", "a/./b"] {
        let joined = root.join(rel);
        assert_eq!(join_path("/sync", rel), joined.to_str().unwrap());
        assert_eq!(
            file_name(joined.to_str().unwrap()).as_deref(),
            joined.file_name().and_then(|n| n.to_str())
        );
    }
    assert_eq!(file_name("/"), None);
    assert_eq!(file_name("a/.."), None);
    assert_eq!(rel_to_abs("/sync", "a/b"), "/sync/a/b");
    assert_eq!(rel_to_vault_abs("/sync", "a/b.txt"), "/sync/a/b.txt.vit");
    assert!(has_vault_extension("/sync/b.txt.vit"));
    assert!(!has_vault_extension("/sync/.vit"));
    assert_eq!(relative_path("/sync", "/sync/a/b"), Some("a/b".to_string()));
    assert_eq!(relative_path("/sync", "/syncs/a"), None);
    assert_eq!(relative_path("/sync", "/sync"), None);
}

#[test]
fn paths_that_lead_out_are_unsafe() {
    assert!(unsafe_rel_path("../a"));
    assert!(unsafe_rel_path("a/../b"));
    assert!(unsafe_rel_path("a/b..c"));
    assert!(unsafe_rel_path("/a"));
    assert!(unsafe_rel_path("a\\b"));
    assert!(!unsafe_rel_path("a/b.c"));
    assert!(!unsafe_rel_path("a"));
}

#[test]
fn maps_keep_the_order_of_their_keys() {
    let mut m: Assoc<String, String> = Assoc::new();
    m.insert("b".to_string(), "1".to_string());
    m.insert("a".to_string(), "2".to_string());
    m.insert("b".to_string(), "3".to_string());
    assert_eq!(m.len(), 2);
    assert_eq!(m.key_at(0), "b");
    assert_eq!(m.get(&"b".to_string()).unwrap(), "3");
    assert_eq!(m.remove(&"b".to_string()), Some("3".to_string()));
    assert_eq!(m.remove(&"b".to_string()), None);
    assert!(m.contains_key(&"a".to_string()));
    let mut s: KeySet<usize> = KeySet::new();
    s.insert(4);
    s.insert(4);
    assert_eq!(s.len(), 1);
    s.remove(&4);
    assert!(!s.contains(&4));
}

#[test]
fn pieces_make_up_the_whole() {
    let data: Vec<u8> = (0..10).collect();
    let parts = cut(&data, 4);
    assert_eq!(parts, vec![vec![0, 1, 2, 3], vec![4, 5, 6, 7], vec![8, 9]]);
    assert_eq!(parts.concat(), data);
    assert_eq!(cut(&[], 4).len(), 0);
}

#[test]
fn files_are_cut_into_chunks_of_half_a_mebibyte() {
    let data = vec![1u8; 2 * 524288 + 5];
    let chunks = split_chunks(&data);
    assert_eq!(chunks.len(), 3);
    assert_eq!(chunks[2], vec![1u8; 5]);
    assert_eq!(chunks.concat(), data);
    assert_eq!(chunk_at(&data, 2), vec![1u8; 5]);
    assert_eq!(chunk_at(&data, 3), Vec::<u8>::new());
    assert_eq!(count_chunks(524288), 1);
    assert_eq!(count_chunks(524289), 2);
}

#[test]
fn missing_chunks_are_those_that_did_not_come() {
    let mut ts = FileTransferState::new("/sync".to_string(), 0);
    assert_eq!(ts.missing_chunks(), Vec::<usize>::new());
    ts.metadata = Some(vitruvius::storage::FileMetadata {
        file_name: "f".to_string(),
        total_chunks: 4,
        file_size: 0,
        chunk_hashes: vec![],
        is_vault: false,
    });
    ts.store_chunk(1, vec![1]);
    ts.store_chunk(3, vec![3]);
    assert_eq!(ts.missing_chunks(), vec![0, 2]);
    assert_eq!(ts.received_count(), 2);
    assert_eq!(ts.total(), 4);
}

#[test]
fn normal_forms_tell_what_stays_below() {
    assert!(is_below("/sync", "/sync/a/../b"));
    assert!(is_below("/sync/", "/sync//./b"));
    assert!(is_below("/", "/a"));
    assert!(is_below("/", "/../a"));
    assert!(is_below("d", "d/x"));
    assert!(is_below(".", "./x"));
    assert!(is_below("../d", "../d/x"));
    for path in ["/sync", "/sync/a/..", "/sync/../x", "/syncing", "/", "sync/a", ""] {
        assert!(!is_below("/sync", path));
    }
    assert!(!is_below("", "../x"));
    assert!(!is_below("..", "../../x"));
    assert!(!is_below(".", "/x"));
}
