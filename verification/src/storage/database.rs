//! Settings and statistics of the chain's database.
use vstd::prelude::*;

verus! {

/// Bytes in a gigabyte.
pub const GIGABYTE: i64 = 1073741824;

/// Bytes in a terabyte.
pub const TERABYTE: i64 = 1099511627776;

/// Options of the chain's database: how many tables and readers, read-ahead,
/// the range of sizes and the step the file grows by.
pub struct DatabaseConfig {
    pub max_tables: Option<u64>,
    pub max_readers: Option<u32>,
    pub no_rdahead: bool,
    pub size: Option<(i64, i64)>,
    pub growth_step: Option<i64>,
}

impl Default for DatabaseConfig {
    /// At most 20 tables, readers left to the database, no read-ahead, sizes
    /// from 0 to 2 TB, growing by 4 GB.
    fn default() -> (c: Self)
        ensures
            c.max_tables == Some(20u64),
            c.max_readers is None,
            c.no_rdahead,
            c.size == Some((0i64, (2 * TERABYTE) as i64)),
            c.growth_step == Some((4 * GIGABYTE) as i64),
    {
        DatabaseConfig {
            max_tables: Some(20),
            max_readers: None,
            no_rdahead: true,
            size: Some((0, 2 * TERABYTE)),
            growth_step: Some(4 * GIGABYTE),
        }
    }
}

/// Counts of a database's entries and its page size.
pub struct DatabaseStats {
    pub blocks_entries: usize,
    pub metadata_entries: usize,
    pub transactions_entries: usize,
    pub page_size: u32,
}

} // verus!
