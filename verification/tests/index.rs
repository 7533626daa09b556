use mft_index::index::{insert_all, ParentChildIndex};
use mft_index::record::FileRecord;

fn rec(file_ref: u64, parent_ref: u64) -> FileRecord {
    FileRecord {
        file_reference_number: file_ref,
        parent_file_reference_number: parent_ref,
        record_length: 60,
        file_name_bytes: Vec::new(),
    }
}

fn refs(list: &Vec<FileRecord>) -> Vec<u64> {
    list.iter().map(|r| r.file_reference_number).collect()
}

#[test]
fn children_keep_insertion_order_per_parent() {
    let mut index = ParentChildIndex::new();
    index.insert(rec(100, 5));
    index.insert(rec(101, 5));
    index.insert(rec(102, 7));
    assert_eq!(index.children(5).len(), 2);
    assert_eq!(refs(index.children(5)), vec![100, 101]);
    assert_eq!(index.children(7).len(), 1);
    assert_eq!(refs(index.children(7)), vec![102]);
    assert!(index.children(9).is_empty());
}

#[test]
fn new_index_is_empty() {
    let index = ParentChildIndex::new();
    assert!(!index.has_children(0));
    assert!(index.children(0).is_empty());
}

#[test]
fn insertion_order_is_not_sorted() {
    let mut index = ParentChildIndex::new();
    index.insert(rec(9, 1));
    index.insert(rec(3, 1));
    index.insert(rec(6, 1));
    assert_eq!(refs(index.children(1)), vec![9, 3, 6]);
    assert!(index.has_children(1));
    assert!(!index.has_children(9));
}

#[test]
fn insert_all_inserts_first_to_last() {
    let mut index = ParentChildIndex::new();
    index.insert(rec(1, 5));
    insert_all(&mut index, vec![rec(2, 5), rec(3, 7), rec(4, 5)]);
    assert_eq!(refs(index.children(5)), vec![1, 2, 4]);
    assert_eq!(refs(index.children(7)), vec![3]);
    assert!(!index.has_children(6));
}

#[test]
fn inserted_record_keeps_its_fields() {
    let mut index = ParentChildIndex::new();
    index.insert(FileRecord {
        file_reference_number: 42,
        parent_file_reference_number: 5,
        record_length: 64,
        file_name_bytes: vec![b'a', 0, b'b', 0],
    });
    let list = index.children(5);
    assert_eq!(list[0].file_reference_number, 42);
    assert_eq!(list[0].parent_file_reference_number, 5);
    assert_eq!(list[0].record_length, 64);
    assert_eq!(list[0].file_name_bytes, vec![b'a', 0, b'b', 0]);
}
