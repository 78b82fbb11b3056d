//! Names shared by the library and the program around it.
use vstd::prelude::*;

verus! {

/// The table of canonical symbol keys.
pub const SCIP_SYMBOLS_DB_NAME: &'static str = "scip_symbols";

/// The table of simple names.
pub const SCIP_SIMPLE_NAMES_DB_NAME: &'static str = "scip_simple_names";

/// The table of file positions.
pub const SCIP_POSITIONS_DB_NAME: &'static str = "scip_positions";

/// The table of index-wide entries.
pub const SCIP_META_DB_NAME: &'static str = "scip_meta";

/// The meta entry that holds the warnings of the last TypeScript rebuild,
/// a JSON array of strings.
pub const META_INDEX_WARNINGS: &'static str = "typescript.index_warnings";

/// The environment variable that sets the `find_impact` budget in seconds.
pub const FIND_IMPACT_BUDGET_SECS_ENV: &'static str = "CODESEARCH_FIND_IMPACT_BUDGET_SECS";

/// The `find_impact` budget in seconds when the environment does not set a
/// valid one. `0` disables the budget.
pub const DEFAULT_FIND_IMPACT_BUDGET_SECS: u64 = 60;

/// The environment variable that points at the C# SCIP helper.
pub const SCIP_CSHARP_HELPER_ENV: &'static str = "CODESEARCH_SCIP_CSHARP";

/// The environment variable that points at the TypeScript SCIP helper.
pub const SCIP_TYPESCRIPT_HELPER_ENV: &'static str = "CODESEARCH_SCIP_TYPESCRIPT";

} // verus!
