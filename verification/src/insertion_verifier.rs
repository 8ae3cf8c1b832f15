//! The file names of the generator's first release, which knew insertion
//! alone.

use crate::text::decimal;
use crate::text::decimal_string;
use crate::types::BatchSize;
use crate::types::TreeDepth;
use vstd::prelude::*;
use vstd::string::StringExecFns;

verus! {

/// The name of the keys file: `keys_<depth>_<size>`.
pub fn keys_file_format(tree_depth: TreeDepth, batch_size: BatchSize) -> (r: String)
    ensures
        r@ == "keys_"@ + decimal(tree_depth.0 as nat) + seq!['_'] + decimal(batch_size.0 as nat),
{
    proof {
        reveal_strlit("_");
    }
    let mut r = String::from_str("keys_");
    let depth = decimal_string(tree_depth.0);
    r.append(depth.as_str());
    r.append("_");
    let size = decimal_string(batch_size.0);
    r.append(size.as_str());
    assert("_"@ =~= seq!['_']);
    r
}

/// The name of the verifier's source file: `verifier_<size>_<depth>.sol`,
/// the batch size first.
pub fn verifier_contract_filename(tree_depth: TreeDepth, batch_size: BatchSize) -> (r: String)
    ensures
        r@ == "verifier_"@ + decimal(batch_size.0 as nat) + seq!['_'] + decimal(tree_depth.0 as nat) + ".sol"@,
{
    proof {
        reveal_strlit("_");
    }
    let mut r = String::from_str("verifier_");
    let size = decimal_string(batch_size.0);
    r.append(size.as_str());
    r.append("_");
    let depth = decimal_string(tree_depth.0);
    r.append(depth.as_str());
    r.append(".sol");
    assert("_"@ =~= seq!['_']);
    r
}

} // verus!
