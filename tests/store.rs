use std::collections::BTreeMap;

use sqlite_vector::{
    decode_rows, encode, read_row, top_k, Config, Dimension, Pragma, Row, SearchResult,
    StoreState, SyncMessage, Vector, VectorDBError,
};

fn vector(v: &[f32]) -> Vector {
    let bits: Vec<u32> = v.iter().map(|x| x.to_bits()).collect();
    Vector::from_slice(&bits)
}

fn floats(v: &Vector) -> Vec<f32> {
    v.as_slice().iter().map(|b| f32::from_bits(*b)).collect()
}

/// Stands in for the storage engine: records keyed by id.
#[derive(Default)]
struct Table {
    rows: BTreeMap<String, (Vec<u8>, String)>,
}

impl Table {
    fn insert(&mut self, state: &mut StoreState, id: &str, v: Vector, metadata: &str) -> Result<(), VectorDBError> {
        let row = state.prepare_insert(id, &v, metadata)?;
        self.rows.insert(row.id, (row.embedding, row.metadata));
        state.insert_written(&v);
        Ok(())
    }

    fn get(&self, id: &str) -> Result<Option<(Vector, String)>, VectorDBError> {
        read_row(self.rows.get(id).cloned())
    }

    fn count(&self) -> usize {
        self.rows.len()
    }

    fn search(&self, query: &Vector, k: usize) -> Vec<SearchResult> {
        let rows: Vec<Row> = self
            .rows
            .iter()
            .map(|(id, (embedding, metadata))| Row {
                id: id.clone(),
                embedding: embedding.clone(),
                metadata: metadata.clone(),
            })
            .collect();
        let candidates = decode_rows(&rows);
        let scores: Vec<u32> =
            candidates.iter().map(|c| cosine(&floats(query), &floats(&c.vector)).to_bits()).collect();
        top_k(&candidates, &scores, k)
    }
}

fn cosine(a: &[f32], b: &[f32]) -> f32 {
    let mut dot = 0.0f32;
    let mut na = 0.0f32;
    let mut nb = 0.0f32;
    for i in 0..a.len().min(b.len()) {
        dot += a[i] * b[i];
        na += a[i] * a[i];
        nb += b[i] * b[i];
    }
    if na == 0.0 || nb == 0.0 {
        return 0.0;
    }
    dot / (na.sqrt() * nb.sqrt())
}

#[test]
fn test_db_operations() {
    let mut state = StoreState::new();
    let mut table = Table::default();
    let v1 = vector(&[1.0, 2.0, 3.0]);
    table.insert(&mut state, "doc1", v1.clone(), r#"{"title": "Test"}"#).unwrap();
    assert_eq!(table.count(), 1);
    let (retrieved, metadata) = table.get("doc1").unwrap().unwrap();
    assert_eq!(floats(&retrieved), floats(&v1));
    assert_eq!(metadata, r#"{"title": "Test"}"#);

    let query = vector(&[1.1, 2.1, 3.1]);
    let results = table.search(&query, 1);
    assert_eq!(results.len(), 1);
    assert_eq!(results[0].id, "doc1");
    assert!(f32::from_bits(results[0].score_bits) > 0.99);
}

#[test]
fn insert_keeps_any_metadata_verbatim() {
    let state = StoreState::new();
    for metadata in ["not json {", "", "{\"a\": [1, 2]}"] {
        let row = state.prepare_insert("m", &vector(&[1.0]), metadata).unwrap();
        assert_eq!(row.metadata, metadata);
    }
}

#[test]
fn search_skips_corrupt_rows_and_caps_at_k() {
    let mut state = StoreState::new();
    let mut table = Table::default();
    table.insert(&mut state, "a", vector(&[1.0, 0.0]), "{}").unwrap();
    table.insert(&mut state, "b", vector(&[0.0, 1.0]), "{}").unwrap();
    table.rows.insert("bad".to_string(), (vec![0xc1], "{}".to_string()));
    let all = table.search(&vector(&[1.0, 0.1]), 10);
    assert_eq!(all.len(), 2);
    assert_eq!(all[0].id, "a");
    assert_eq!(all[1].id, "b");
    assert!(table.search(&vector(&[1.0, 0.1]), 0).is_empty());
}

#[test]
fn test_delete() {
    let mut state = StoreState::new();
    let mut table = Table::default();
    table.insert(&mut state, "doc1", vector(&[1.0, 2.0, 3.0]), r#"{}"#).unwrap();
    assert_eq!(table.count(), 1);
    table.rows.remove("doc1");
    assert_eq!(table.count(), 0);
    table.rows.remove("doc1");
    assert_eq!(table.count(), 0);
}

#[test]
fn test_clear() {
    let mut state = StoreState::new();
    let mut table = Table::default();
    for i in 0..10 {
        let v = vector(&[i as f32; 3]);
        table.insert(&mut state, &format!("doc{}", i), v, r#"{}"#).unwrap();
    }
    assert_eq!(table.count(), 10);
    table.rows.clear();
    assert_eq!(table.count(), 0);
    let err = table.insert(&mut state, "doc", vector(&[1.0; 4]), "{}").unwrap_err();
    assert_eq!(err, VectorDBError::InvalidDimension { expected: 3, got: 4 });
}

#[test]
fn insert_with_other_dimension_is_rejected() {
    let mut state = StoreState::new();
    assert_eq!(state.dimension(), Dimension::Unset);
    let first = vector(&[1.0, 2.0, 3.0]);
    state.prepare_insert("a", &first, "{}").unwrap();
    assert_eq!(state.dimension(), Dimension::Unset);
    state.insert_written(&first);
    assert_eq!(state.dimension(), Dimension::Fixed(3));
    let r = state.prepare_insert("b", &vector(&[1.0, 2.0, 3.0, 4.0]), "{}");
    assert_eq!(r, Err(VectorDBError::InvalidDimension { expected: 3, got: 4 }));
    state.insert_written(&vector(&[1.0]));
    assert_eq!(state.dimension(), Dimension::Fixed(3));
}

#[test]
fn prepared_row_holds_encoded_vector() {
    let state = StoreState::new();
    let v = vector(&[0.5, -1.0]);
    let row = state.prepare_insert("id7", &v, "meta").unwrap();
    assert_eq!(row, Row { id: "id7".to_string(), embedding: encode(&v).unwrap(), metadata: "meta".to_string() });
}

#[test]
fn read_row_cases() {
    assert!(read_row(None).unwrap().is_none());
    let err = read_row(Some((vec![0xc1], "m".to_string()))).unwrap_err();
    assert!(matches!(err, VectorDBError::Serialization(_)));
    let (v, m) = read_row(Some((vec![0x91, 0x05], "m".to_string()))).unwrap().unwrap();
    assert_eq!(v.as_slice(), &[5u32][..]);
    assert_eq!(m, "m");
}

#[test]
fn decode_rows_skips_corrupt_rows() {
    let rows = vec![
        Row { id: "a".to_string(), embedding: vec![0x91, 0x01], metadata: "ma".to_string() },
        Row { id: "b".to_string(), embedding: vec![0xc1, 0x00], metadata: "mb".to_string() },
        Row { id: "c".to_string(), embedding: vec![0x92, 0x02, 0x03], metadata: "mc".to_string() },
    ];
    let c = decode_rows(&rows);
    assert_eq!(c.len(), 2);
    assert_eq!(c[0].id, "a");
    assert_eq!(c[0].vector.as_slice(), &[1u32][..]);
    assert_eq!(c[1].id, "c");
    assert_eq!(c[1].metadata, "mc");
    assert_eq!(c[1].vector.as_slice(), &[2u32, 3][..]);
}

#[test]
fn default_config_and_pragmas() {
    let c = Config::default();
    assert_eq!(c.max_connections, 4);
    assert!(c.wal_mode);
    assert_eq!(c.cache_size, 2000);
    assert_eq!(c.synchronous, 1);
    assert_eq!(
        c.pragmas(),
        vec![Pragma::JournalWal, Pragma::CacheSize(2000), Pragma::Synchronous(1), Pragma::TempStoreMemory]
    );
    let quiet = Config { wal_mode: false, synchronous: 0, ..c };
    assert_eq!(quiet.pragmas(), vec![Pragma::CacheSize(2000), Pragma::Synchronous(0), Pragma::TempStoreMemory]);
}

#[test]
fn sync_messages_compare_by_fields() {
    let a = SyncMessage::Delete { id: "x".to_string() };
    assert_eq!(a.clone(), SyncMessage::Delete { id: "x".to_string() });
    assert_ne!(a, SyncMessage::Heartbeat { timestamp: 1 });
}
