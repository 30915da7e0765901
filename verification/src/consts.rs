//! Names and ids that the storage engine keeps for itself.

use vstd::prelude::*;

verus! {

/// Name of the column that holds the encoded primary key of a stored row.
pub const PRIMARY_KEY_COLUMN_NAME: &'static str = "__primary_key";

/// Name of the default column family.
pub const DEFAULT_CF_NAME: &'static str = "default";

/// Id of the default column family.
pub const DEFAULT_CF_ID: u32 = 1;

} // verus!
