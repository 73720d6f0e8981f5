use vstd::prelude::*;

verus! {

/// Tunables read once when a store is opened.
#[derive(Debug, Clone)]
pub struct Config {
    /// Pool sizing hint (at least one connection).
    pub max_connections: usize,
    /// Write-ahead journaling, so that readers run beside a writer.
    pub wal_mode: bool,
    /// Page cache size of the storage engine, in KB.
    pub cache_size: usize,
    /// Commit flushing: 0 = off, 1 = normal, 2 = full.
    pub synchronous: u8,
}

/// One session setting that opening a store applies to the storage engine.
#[derive(Debug, Clone, Copy, PartialEq, Eq, Structural)]
pub enum Pragma {
    /// Switch the journal to write-ahead logging.
    JournalWal,
    /// Page cache size, in KB.
    CacheSize(usize),
    /// Commit flushing mode.
    Synchronous(u8),
    /// Keep temporary tables in memory.
    TempStoreMemory,
}

/// The settings applied at open, in order: write-ahead logging where the
/// configuration asks for it, then cache size, flushing mode and in-memory
/// temporary storage.
pub open spec fn pragma_plan(c: Config) -> Seq<Pragma> {
    let tail = seq![
        Pragma::CacheSize(c.cache_size),
        Pragma::Synchronous(c.synchronous),
        Pragma::TempStoreMemory,
    ];
    if c.wal_mode {
        seq![Pragma::JournalWal] + tail
    } else {
        tail
    }
}

impl Default for Config {
    /// Four connections, write-ahead logging, a 2000 KB cache and normal
    /// flushing.
    fn default() -> (r: Self)
        ensures
            r.max_connections == 4,
            r.wal_mode,
            r.cache_size == 2000,
            r.synchronous == 1,
    {
        Config { max_connections: 4, wal_mode: true, cache_size: 2000, synchronous: 1 }
    }
}

impl Config {
    /// The session settings to apply when a store is opened with this
    /// configuration.
    pub fn pragmas(&self) -> (r: Vec<Pragma>)
        ensures
            r@ == pragma_plan(*self),
    {
        let mut r: Vec<Pragma> = Vec::new();
        if self.wal_mode {
            r.push(Pragma::JournalWal);
        }
        r.push(Pragma::CacheSize(self.cache_size));
        r.push(Pragma::Synchronous(self.synchronous));
        r.push(Pragma::TempStoreMemory);
        assert(r@ =~= pragma_plan(*self));
        r
    }
}

} // verus!
