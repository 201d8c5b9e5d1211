//! The configuration, constructed once at startup and passed by
//! reference into every component.
use vstd::prelude::*;

verus! {

use vstd::string::StringExecFns;

/// Recognized options: whether to create the schema, whether the
/// ingestion task runs at all, log verbosity, the data directory, the
/// chain node's RPC endpoint, and the inclusive floor and ceiling of the
/// height range to index.
#[derive(Debug, Clone)]
pub struct Args {
    pub init_schema: bool,
    pub index: bool,
    pub log_level: String,
    pub datadir: String,
    pub rpc: String,
    pub from_block: u32,
    pub to_block: u32,
}

impl Default for Args {
    /// The defaults: no schema creation, ingestion on, a floor near the
    /// chain upgrade this indexer starts from, an unbounded ceiling.
    fn default() -> (r: Args)
        ensures
            r.init_schema == false,
            r.index == true,
            r.log_level@ == "INFO"@,
            r.datadir@ == "./data"@,
            r.rpc@ == "https://rpc.atomscan.com"@,
            r.from_block == 5200791u32,
            r.to_block == 0xFFFF_FFFFu32,
    {
        Args {
            init_schema: false,
            index: true,
            log_level: String::from_str("INFO"),
            datadir: String::from_str("./data"),
            rpc: String::from_str("https://rpc.atomscan.com"),
            from_block: 5200791,
            to_block: 0xFFFF_FFFF,
        }
    }
}

} // verus!
