use clusterpluk::index::{PairIndices, ReadIndex};
use clusterpluk::record::ReadRecord;

fn record(id: &str, seq: &str, qual: &str) -> ReadRecord {
    ReadRecord::new(
        id.as_bytes().to_vec(),
        seq.as_bytes().to_vec(),
        qual.as_bytes().to_vec(),
    )
}

#[test]
fn get_finds_an_inserted_record() {
    let mut idx = ReadIndex::new();
    idx.insert(record("id1", "ACGT", "IIII"));
    idx.insert(record("id2", "TTTT", "!!!!"));
    let got = idx.get(&b"id1".to_vec()).expect("id1 must resolve");
    assert_eq!(got.seq, b"ACGT".to_vec());
    assert!(idx.get(&b"id3".to_vec()).is_none());
}

#[test]
fn later_record_with_same_identifier_wins() {
    let mut idx = ReadIndex::new();
    idx.insert(record("id1", "ACGT", "IIII"));
    idx.insert(record("id1", "GGGG", "!!!!"));
    let got = idx.get(&b"id1".to_vec()).expect("id1 must resolve");
    assert_eq!(got.seq, b"GGGG".to_vec());
}

#[test]
fn resolve_pair_needs_both_indices() {
    let mut r1 = ReadIndex::new();
    let mut r2 = ReadIndex::new();
    r1.insert(record("id1", "ACGT", "IIII"));
    r1.insert(record("id2", "CCCC", "IIII"));
    r2.insert(record("id1", "GGCA", "!!!!"));
    let indices = PairIndices { r1, r2 };

    let (a, b) = indices.resolve_pair(&b"id1".to_vec()).expect("id1 is in both");
    assert_eq!(a.seq, b"ACGT".to_vec());
    assert_eq!(b.seq, b"GGCA".to_vec());

    // id2 is only in the first index, id3 in neither.
    assert!(indices.resolve_pair(&b"id2".to_vec()).is_none());
    assert!(indices.resolve_pair(&b"id3".to_vec()).is_none());
}
