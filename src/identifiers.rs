use vstd::prelude::*;

verus! {

/// Internal identifier: dense, process-assigned handle of an object within a bucket.
pub type StoreObjectIID = u64;

/// External identifier: the caller's name for an object.
pub type StoreObjectOID = String;

} // verus!
