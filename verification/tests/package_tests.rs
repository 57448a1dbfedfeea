//! End-to-end tests of package assembly: the archive layout, the relational
//! snapshot's contents, determinism, and the error paths.

use std::io::Cursor;
use std::io::Read;
use std::io::Write;

use genanki_rs::{DbScript, Deck, Package, PkgError, RowInsert, RowParam};

fn test_script() -> DbScript {
    DbScript {
        schema_sql: "CREATE TABLE col (id INTEGER PRIMARY KEY, crt INTEGER, mod INTEGER);\n\
                     CREATE TABLE decks (id INTEGER PRIMARY KEY, name TEXT);\n\
                     CREATE TABLE notes (id INTEGER PRIMARY KEY, flds TEXT);\n\
                     CREATE TABLE cards (id INTEGER PRIMARY KEY, nid INTEGER, ord INTEGER);"
            .to_string(),
        collection_sql: "INSERT INTO col (id, crt, mod) VALUES (1, 0, 0);".to_string(),
    }
}

/// One deck with two notes of one card each: draws four identifiers
/// (note, note, card, card) and inserts one deck row, two note rows and two
/// card rows.
fn two_note_deck() -> Deck {
    Deck {
        ids_needed: 4,
        rows: vec![
            RowInsert {
                sql: "INSERT INTO decks (id, name) VALUES (?1, ?2)".to_string(),
                params: vec![RowParam::Int(1234), RowParam::Text("Example Deck".to_string())],
            },
            RowInsert {
                sql: "INSERT INTO notes (id, flds) VALUES (?1, ?2)".to_string(),
                params: vec![RowParam::FreshId(0), RowParam::Text("Q1\u{1f}A1".to_string())],
            },
            RowInsert {
                sql: "INSERT INTO notes (id, flds) VALUES (?1, ?2)".to_string(),
                params: vec![RowParam::FreshId(1), RowParam::Text("Q2\u{1f}A2".to_string())],
            },
            RowInsert {
                sql: "INSERT INTO cards (id, nid, ord) VALUES (?1, ?2, ?3)".to_string(),
                params: vec![RowParam::FreshId(2), RowParam::FreshId(0), RowParam::Int(0)],
            },
            RowInsert {
                sql: "INSERT INTO cards (id, nid, ord) VALUES (?1, ?2, ?3)".to_string(),
                params: vec![RowParam::FreshId(3), RowParam::FreshId(1), RowParam::Int(0)],
            },
        ],
    }
}

fn member_bytes(archive_bytes: &[u8], name: &str) -> Vec<u8> {
    let mut zip = zip::ZipArchive::new(Cursor::new(archive_bytes.to_vec())).unwrap();
    let mut member = zip.by_name(name).unwrap();
    let mut buf = Vec::new();
    member.read_to_end(&mut buf).unwrap();
    buf
}

fn member_count(archive_bytes: &[u8]) -> usize {
    let zip = zip::ZipArchive::new(Cursor::new(archive_bytes.to_vec())).unwrap();
    zip.len()
}

fn open_snapshot(snapshot: &[u8]) -> (tempfile::NamedTempFile, rusqlite::Connection) {
    let mut file = tempfile::NamedTempFile::new().unwrap();
    file.write_all(snapshot).unwrap();
    let conn = rusqlite::Connection::open(file.path()).unwrap();
    (file, conn)
}

fn count_rows(conn: &rusqlite::Connection, table: &str) -> i64 {
    let sql = format!("SELECT COUNT(*) FROM {}", table);
    conn.query_row(&sql, [], |row| row.get(0)).unwrap()
}

fn write_with_ts(pkg: &Package, script: &DbScript, media: &Vec<Vec<u8>>, ts: u64) -> Result<Vec<u8>, PkgError> {
    let mut cur = Cursor::new(Vec::new());
    pkg.write_to_timestamp(&mut cur, script, media, ts)?;
    Ok(cur.into_inner())
}

#[test]
fn one_deck_no_media() {
    let pkg = Package::new(vec![two_note_deck()], vec![]).unwrap();
    let ts: u64 = 1700000000000;
    let bytes = write_with_ts(&pkg, &test_script(), &vec![], ts).unwrap();

    assert_eq!(member_count(&bytes), 2);
    assert_eq!(member_bytes(&bytes, "media"), b"{}".to_vec());

    let snapshot = member_bytes(&bytes, "collection.anki2");
    let (_file, conn) = open_snapshot(&snapshot);
    assert_eq!(count_rows(&conn, "col"), 1);
    assert_eq!(count_rows(&conn, "decks"), 1);
    assert_eq!(count_rows(&conn, "notes"), 2);
    assert_eq!(count_rows(&conn, "cards"), 2);

    let mut stmt = conn.prepare("SELECT id FROM notes ORDER BY id").unwrap();
    let note_ids: Vec<i64> = stmt
        .query_map([], |row| row.get(0))
        .unwrap()
        .map(|r| r.unwrap())
        .collect();
    assert_eq!(note_ids, vec![ts as i64, ts as i64 + 1]);

    let mut stmt = conn.prepare("SELECT id, nid FROM cards ORDER BY id").unwrap();
    let cards: Vec<(i64, i64)> = stmt
        .query_map([], |row| Ok((row.get(0)?, row.get(1)?)))
        .unwrap()
        .map(|r| r.unwrap())
        .collect();
    assert_eq!(cards, vec![(ts as i64 + 2, ts as i64), (ts as i64 + 3, ts as i64 + 1)]);
}

#[test]
fn no_decks_one_media_file() {
    let pkg = Package::new(vec![], vec!["img.png"]).unwrap();
    let payload = b"PNGDATA-NOT-REALLY".to_vec();
    let media = vec![payload.clone()];
    let bytes = write_with_ts(&pkg, &test_script(), &media, 1700000000000).unwrap();

    assert_eq!(member_count(&bytes), 3);
    assert_eq!(member_bytes(&bytes, "0"), payload);

    let manifest = member_bytes(&bytes, "media");
    let value: serde_json::Value = serde_json::from_str(std::str::from_utf8(&manifest).unwrap()).unwrap();
    let obj = value.as_object().unwrap();
    assert_eq!(obj.len(), 1);
    assert_eq!(obj.get("0").unwrap().as_str().unwrap(), "img.png");
}

#[test]
fn media_members_keep_slot_order_and_content() {
    let pkg = Package::new(vec![], vec!["a/first.bin", "b/second.bin"]).unwrap();
    let media = vec![vec![1u8, 2, 3], vec![9u8, 8, 7, 6]];
    let bytes = write_with_ts(&pkg, &test_script(), &media, 1700000000000).unwrap();

    assert_eq!(member_count(&bytes), 4);
    assert_eq!(member_bytes(&bytes, "0"), vec![1u8, 2, 3]);
    assert_eq!(member_bytes(&bytes, "1"), vec![9u8, 8, 7, 6]);

    let zip = zip::ZipArchive::new(Cursor::new(bytes)).unwrap();
    let names: Vec<&str> = zip.file_names().collect();
    assert!(names.contains(&"collection.anki2"));
    assert!(names.contains(&"media"));
    assert!(names.contains(&"0"));
    assert!(names.contains(&"1"));
}

#[test]
fn same_timestamp_same_input_is_reproducible() {
    let ts: u64 = 1699999999123;
    let media = vec![b"payload".to_vec()];
    let pkg1 = Package::new(vec![two_note_deck()], vec!["img.png"]).unwrap();
    let pkg2 = Package::new(vec![two_note_deck()], vec!["img.png"]).unwrap();
    let bytes1 = write_with_ts(&pkg1, &test_script(), &media, ts).unwrap();
    let bytes2 = write_with_ts(&pkg2, &test_script(), &media, ts).unwrap();

    let snap1 = member_bytes(&bytes1, "collection.anki2");
    let snap2 = member_bytes(&bytes2, "collection.anki2");
    assert_eq!(snap1, snap2);
    assert_eq!(bytes1, bytes2);
}

#[test]
fn wall_clock_write_produces_valid_archive() {
    let pkg = Package::new(vec![two_note_deck()], vec![]).unwrap();
    let mut cur = Cursor::new(Vec::new());
    pkg.write_to(&mut cur, &test_script(), &vec![]).unwrap();
    assert_eq!(member_count(&cur.into_inner()), 2);
}

#[test]
fn write_to_timestamp_sends_exactly_the_built_bytes() {
    let ts: u64 = 1700000000000;
    let media = vec![b"payload".to_vec()];
    let pkg = Package::new(vec![two_note_deck()], vec!["img.png"]).unwrap();
    let bytes = pkg.build_with_timestamp(&test_script(), &media, ts).unwrap();
    let mut cur = Cursor::new(Vec::new());
    pkg.write_to_timestamp(&mut cur, &test_script(), &media, ts).unwrap();
    assert_eq!(bytes, cur.into_inner());
    assert_eq!(member_count(&bytes), 3);
}

#[test]
fn assembled_archive_holds_exactly_the_given_members() {
    let snapshot = b"snapshot-bytes".to_vec();
    let manifest = b"{}".to_vec();
    let media = vec![b"m0".to_vec(), b"m1".to_vec()];
    let archive = genanki_rs::package::assemble_archive(&snapshot, &manifest, &media).unwrap();
    let bytes = archive.finish().unwrap();
    assert_eq!(member_count(&bytes), 4);
    assert_eq!(member_bytes(&bytes, "collection.anki2"), snapshot);
    assert_eq!(member_bytes(&bytes, "media"), manifest);
    assert_eq!(member_bytes(&bytes, "0"), b"m0".to_vec());
    assert_eq!(member_bytes(&bytes, "1"), b"m1".to_vec());
}

#[test]
fn nul_in_media_path_is_rejected_at_construction() {
    let r = Package::new(vec![], vec!["bad\u{0}path.png"]);
    assert!(matches!(r, Err(PkgError::PathFormat)));
}

#[test]
fn empty_media_path_is_rejected_at_construction() {
    let r = Package::new(vec![], vec![""]);
    assert!(matches!(r, Err(PkgError::PathFormat)));
}

#[test]
fn nameless_media_path_fails_the_write() {
    let pkg = Package::new(vec![], vec![".."]).unwrap();
    let media = vec![b"x".to_vec()];
    let r = write_with_ts(&pkg, &test_script(), &media, 1700000000000);
    assert!(matches!(r, Err(PkgError::PathFormat)));
}

#[test]
fn bad_schema_is_a_database_error() {
    let pkg = Package::new(vec![], vec![]).unwrap();
    let script = DbScript {
        schema_sql: "THIS IS NOT SQL;".to_string(),
        collection_sql: "".to_string(),
    };
    let r = write_with_ts(&pkg, &script, &vec![], 1700000000000);
    assert!(matches!(r, Err(PkgError::Database(_))));
}

#[test]
fn constraint_violation_rolls_up_as_database_error() {
    let mut deck = two_note_deck();
    // The second note reuses the first note's identifier: primary key clash.
    deck.rows[2].params[0] = RowParam::FreshId(0);
    let pkg = Package::new(vec![deck], vec![]).unwrap();
    let r = write_with_ts(&pkg, &test_script(), &vec![], 1700000000000);
    assert!(matches!(r, Err(PkgError::Database(_))));
}

#[test]
fn package_is_reusable_for_sequential_writes() {
    let pkg = Package::new(vec![two_note_deck()], vec![]).unwrap();
    let bytes1 = write_with_ts(&pkg, &test_script(), &vec![], 1).unwrap();
    let bytes2 = write_with_ts(&pkg, &test_script(), &vec![], 2).unwrap();
    let (_f1, conn1) = open_snapshot(&member_bytes(&bytes1, "collection.anki2"));
    let (_f2, conn2) = open_snapshot(&member_bytes(&bytes2, "collection.anki2"));
    assert_eq!(count_rows(&conn1, "notes"), 2);
    assert_eq!(count_rows(&conn2, "notes"), 2);
}
