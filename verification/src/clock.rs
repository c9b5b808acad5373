use vstd::prelude::*;

verus! {

/// `SystemTime::now().duration_since(UNIX_EPOCH)` in nanoseconds. The clock's
/// reading is not known in advance; a clock set before 1970 reads as zero.
#[verifier::external_body]
pub(crate) fn now_nanos() -> (nanos: u128) {
    match std::time::SystemTime::now().duration_since(std::time::UNIX_EPOCH) {
        Ok(d) => d.as_nanos(),
        Err(_) => 0,
    }
}

} // verus!
