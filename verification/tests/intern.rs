use perfetto_recorder::intern::same_text;
use perfetto_recorder::intern::InternTable;
use perfetto_recorder::intern::Location;

#[test]
fn ids_count_from_one_in_the_order_of_first_sight() {
    let mut table: InternTable<&'static str> = InternTable::new();
    assert_eq!(table.len(), 0);
    assert_eq!(table.intern("a"), (1, true));
    assert_eq!(table.intern("b"), (2, true));
    assert_eq!(table.intern("a"), (1, false));
    assert_eq!(table.intern("c"), (3, true));
    assert_eq!(table.intern("b"), (2, false));
    assert_eq!(table.intern("c"), (3, false));
    assert_eq!(table.intern(""), (4, true));
    assert_eq!(table.len(), 4);
}

#[test]
fn names_are_told_apart_by_their_text() {
    let owned = String::from("na") + "me";
    let leaked: &'static str = Box::leak(owned.into_boxed_str());
    let mut table: InternTable<&'static str> = InternTable::new();
    assert_eq!(table.intern("name"), (1, true));
    assert_eq!(table.intern(leaked), (1, false));
    assert_eq!(table.intern("Name"), (2, true));
    assert_eq!(table.intern("name "), (3, true));
    assert_eq!(table.intern("nam"), (4, true));
}

#[test]
fn locations_are_told_apart_by_file_and_line() {
    let mut table: InternTable<Location> = InternTable::new();
    assert_eq!(table.intern(Location { file: "a.rs", line: 1 }), (1, true));
    assert_eq!(table.intern(Location { file: "a.rs", line: 2 }), (2, true));
    assert_eq!(table.intern(Location { file: "b.rs", line: 1 }), (3, true));
    assert_eq!(table.intern(Location { file: "a.rs", line: 1 }), (1, false));
    assert_eq!(table.intern(Location { file: "b.rs", line: 1 }), (3, false));
    assert_eq!(table.len(), 3);
}

#[test]
fn same_text_compares_every_byte() {
    assert!(same_text("", ""));
    assert!(same_text("abc", "abc"));
    assert!(!same_text("abc", "abd"));
    assert!(!same_text("abc", "ab"));
    assert!(!same_text("ab", "abc"));
    assert!(!same_text("é", "e"));
    assert!(same_text("日本語", "日本語"));
}
