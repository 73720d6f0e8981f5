use vstd::prelude::*;

use crate::codec::{components_of, decode, encode, msgpack_of};
use crate::error::VectorDBError;
use crate::vector::Vector;

verus! {

/// The store's embedding dimension: unset until the first successful
/// insert, then fixed for the life of the store.
#[derive(Debug, Clone, Copy, PartialEq, Eq, Structural)]
pub enum Dimension {
    Unset,
    Fixed(usize),
}

/// A record as it is written to storage and read back from it.
#[derive(Debug, Clone, PartialEq, Eq)]
pub struct Row {
    pub id: String,
    pub embedding: Vec<u8>,
    pub metadata: String,
}

/// A stored record whose embedding decoded.
#[derive(Debug, Clone)]
pub struct Candidate {
    pub id: String,
    pub vector: Vector,
    pub metadata: String,
}

/// The storage model: the records that the storage engine holds, each id
/// mapped to its embedding bytes and metadata.
pub type Table = Map<Seq<char>, (Seq<u8>, Seq<char>)>;

/// The number of records.
pub open spec fn count_of(t: Table) -> nat {
    t.dom().len()
}

/// The bytes and metadata stored under `id`, if any.
pub open spec fn stored(t: Table, id: Seq<char>) -> Option<(Seq<u8>, Seq<char>)> {
    if t.contains_key(id) {
        Some(t[id])
    } else {
        None
    }
}

/// The storage model of an upsert: `row` replaces any record with its id.
pub open spec fn after_upsert(t: Table, row: Row) -> Table {
    t.insert(row.id@, (row.embedding@, row.metadata@))
}

/// The storage model of a delete: the record with `id`, if any, is gone.
pub open spec fn after_delete(t: Table, id: Seq<char>) -> Table {
    t.remove(id)
}

/// The storage model of a clear: no record is left.
pub open spec fn after_clear(t: Table) -> Table {
    Map::empty()
}

/// Whether a dimension rejects an embedding of `len` components.
pub open spec fn rejects(dim: Dimension, len: nat) -> bool {
    match dim {
        Dimension::Unset => false,
        Dimension::Fixed(n) => n != len,
    }
}

/// The dimension after an insert of `len` components succeeded: the first
/// one fixes it, later ones leave it.
pub open spec fn next_dimension(dim: Dimension, len: usize) -> Dimension {
    match dim {
        Dimension::Unset => Dimension::Fixed(len),
        Dimension::Fixed(n) => Dimension::Fixed(n),
    }
}

/// What preparing the insert of `v` under `id` gives: a dimension error
/// where the established dimension differs; else the row to upsert, with
/// the id, the encoded components and the metadata verbatim, wherever the
/// length fits the encoding; else a serialization error.
pub open spec fn insert_outcome(
    dim: Dimension,
    id: Seq<char>,
    v: Seq<u32>,
    metadata: Seq<char>,
    r: Result<Row, VectorDBError>,
) -> bool {
    if rejects(dim, v.len()) {
        r == Err::<Row, VectorDBError>(
            VectorDBError::InvalidDimension { expected: dim->Fixed_0, got: v.len() as usize },
        )
    } else {
        match r {
            Ok(row) => v.len() <= u32::MAX && row.id@ == id && row.embedding@ == msgpack_of(v)
                && components_of(row.embedding@) == Some(v) && row.metadata@ == metadata,
            Err(e) => v.len() > u32::MAX && e is Serialization,
        }
    }
}

/// The view of what storage found under an id.
pub open spec fn found_view(found: Option<(Vec<u8>, String)>) -> Option<(Seq<u8>, Seq<char>)> {
    match found {
        Some((b, m)) => Some((b@, m@)),
        None => None,
    }
}

/// What reading a record gives: nothing where no record was found, the
/// decoded vector and metadata where its bytes decode, else a serialization
/// error.
pub open spec fn get_outcome(
    found: Option<(Seq<u8>, Seq<char>)>,
    r: Result<Option<(Vector, String)>, VectorDBError>,
) -> bool {
    match found {
        None => r == Ok::<Option<(Vector, String)>, VectorDBError>(None),
        Some((b, m)) => match components_of(b) {
            Some(v) => r matches Ok(Some((w, s))) && w@ == v && s@ == m,
            None => r matches Err(e) && e is Serialization,
        },
    }
}

/// The view of a candidate: id, components and metadata.
pub open spec fn candidate_view(c: Candidate) -> (Seq<char>, Seq<u32>, Seq<char>) {
    (c.id@, c.vector@, c.metadata@)
}

/// The rows whose embeddings decode, with their components, in order; rows
/// that do not decode are left out.
pub open spec fn decoded_rows(rows: Seq<Row>) -> Seq<(Seq<char>, Seq<u32>, Seq<char>)>
    decreases rows.len(),
{
    if rows.len() == 0 {
        Seq::empty()
    } else {
        let prev = decoded_rows(rows.drop_last());
        let row = rows.last();
        match components_of(row.embedding@) {
            Some(v) => prev.push((row.id@, v, row.metadata@)),
            None => prev,
        }
    }
}

/// The store's process-local state: its established dimension.
pub struct StoreState {
    dimension: Dimension,
}

impl StoreState {
    /// The established dimension.
    pub closed spec fn established(&self) -> Dimension {
        self.dimension
    }

    /// A fresh store: no dimension established yet.
    pub fn new() -> (r: StoreState)
        ensures
            r.established() == Dimension::Unset,
    {
        StoreState { dimension: Dimension::Unset }
    }

    /// The established dimension.
    pub fn dimension(&self) -> (r: Dimension)
        ensures
            r == self.established(),
    {
        self.dimension
    }

    /// Checks an insert against the established dimension and encodes the
    /// row to upsert. A rejected insert gives its error before any row is
    /// made, so that nothing is written.
    pub fn prepare_insert(&self, id: &str, vector: &Vector, metadata: &str) -> (r: Result<
        Row,
        VectorDBError,
    >)
        ensures
            insert_outcome(self.established(), id@, vector@, metadata@, r),
    {
        if let Dimension::Fixed(n) = self.dimension {
            if vector.dim() != n {
                return Err(VectorDBError::InvalidDimension { expected: n, got: vector.dim() });
            }
        }
        match encode(vector) {
            Ok(embedding) => Ok(Row { id: id.to_owned(), embedding, metadata: metadata.to_owned() }),
            Err(e) => Err(e),
        }
    }

    /// Records that an insert of `vector` was written: the first one fixes
    /// the dimension, later ones leave it as it is.
    pub fn insert_written(&mut self, vector: &Vector)
        ensures
            final(self).established() == next_dimension(old(self).established(), vector@.len() as usize),
    {
        if let Dimension::Unset = self.dimension {
            self.dimension = Dimension::Fixed(vector.dim());
        }
    }
}

/// Turns what storage found under an id into the record's vector and
/// metadata: `None` where nothing was found, a serialization error where the
/// stored bytes do not decode.
pub fn read_row(found: Option<(Vec<u8>, String)>) -> (r: Result<
    Option<(Vector, String)>,
    VectorDBError,
>)
    ensures
        get_outcome(found_view(found), r),
{
    match found {
        None => Ok(None),
        Some((bytes, metadata)) => match decode(bytes.as_slice()) {
            Ok(v) => Ok(Some((v, metadata))),
            Err(e) => Err(e),
        },
    }
}

/// Decodes every row of a scan, in order, and leaves out the rows whose
/// bytes do not decode.
pub fn decode_rows(rows: &Vec<Row>) -> (r: Vec<Candidate>)
    ensures
        r@.map_values(|c: Candidate| candidate_view(c)) == decoded_rows(rows@),
{
    let mut r: Vec<Candidate> = Vec::new();
    let mut i: usize = 0;
    while i < rows.len()
        invariant
            i <= rows@.len(),
            r@.map_values(|c: Candidate| candidate_view(c)) == decoded_rows(
                rows@.subrange(0, i as int),
            ),
        decreases rows@.len() - i,
    {
        let row = &rows[i];
        let ghost prev = r@;
        assert(rows@.subrange(0, i + 1).drop_last() =~= rows@.subrange(0, i as int));
        match decode(row.embedding.as_slice()) {
            Ok(v) => {
                r.push(Candidate { id: row.id.clone(), vector: v, metadata: row.metadata.clone() });
                assert(r@.map_values(|c: Candidate| candidate_view(c)) =~= prev.map_values(
                    |c: Candidate| candidate_view(c),
                ).push(candidate_view(r@.last())));
            },
            Err(_) => {},
        }
        i = i + 1;
    }
    assert(rows@.subrange(0, rows@.len() as int) =~= rows@);
    r
}

/// Insert then get: an insert that the dimension accepts, of a vector whose
/// length fits the encoding, prepares a row; once the storage upserts that
/// row into any table of the storage model, reading its id gives back the
/// same components and the metadata verbatim.
pub proof fn lemma_insert_then_get(
    t: Table,
    dim: Dimension,
    id: Seq<char>,
    v: Seq<u32>,
    metadata: Seq<char>,
    prepared: Result<Row, VectorDBError>,
    got: Result<Option<(Vector, String)>, VectorDBError>,
)
    requires
        !rejects(dim, v.len()),
        v.len() <= u32::MAX,
        insert_outcome(dim, id, v, metadata, prepared),
        get_outcome(stored(after_upsert(t, prepared->Ok_0), id), got),
    ensures
        got matches Ok(Some((w, m))) && w@ == v && m@ == metadata,
{
    let row = prepared->Ok_0;
    assert(stored(after_upsert(t, row), id) == Some((row.embedding@, row.metadata@)));
}

/// The storage model that the caller's delete relies on: deleting removes
/// exactly the record with that id, the count drops by one where it was
/// present, and the table is unchanged where it was not. The delete itself
/// is one storage statement outside this library.
pub proof fn lemma_delete_one(t: Table, id: Seq<char>)
    requires
        t.dom().finite(),
    ensures
        stored(after_delete(t, id), id) is None,
        forall|other: Seq<char>|
            other != id ==> stored(after_delete(t, id), other) == stored(t, other),
        t.contains_key(id) ==> count_of(after_delete(t, id)) == count_of(t) - 1,
        !t.contains_key(id) ==> after_delete(t, id) == t,
{
    if !t.contains_key(id) {
        assert(after_delete(t, id) =~= t);
    }
}

/// The storage model that the caller's clear relies on: clearing leaves no
/// record. Clearing does not touch the store's state, so a fixed dimension
/// still rejects an insert of another length. The clear itself is one
/// storage statement outside this library.
pub proof fn lemma_clear_empties(
    t: Table,
    dim: Dimension,
    id: Seq<char>,
    v: Seq<u32>,
    metadata: Seq<char>,
    prepared: Result<Row, VectorDBError>,
)
    requires
        dim is Fixed,
        dim->Fixed_0 != v.len(),
        insert_outcome(dim, id, v, metadata, prepared),
    ensures
        count_of(after_clear(t)) == 0,
        prepared matches Err(e) && e == (VectorDBError::InvalidDimension {
            expected: dim->Fixed_0,
            got: v.len() as usize,
        }),
{
}

} // verus!
