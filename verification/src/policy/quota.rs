//! Storage quotas: whether storing more data stays within the configured
//! limit.

use vstd::prelude::*;
use crate::config::QuotaConfig;
use crate::error::LatticeError;
use crate::storage::chunks::ChunkRef;

verus! {

/// Bytes in a gibibyte.
pub const GIB: u64 = 1073741824;

/// Checks storage against the quota settings.
#[derive(Debug, Clone)]
pub struct QuotaEnforcer {
    config: QuotaConfig,
}

/// Current and additional storage, and the limit.
#[derive(Debug, Clone, Copy, PartialEq, Eq, Structural)]
pub struct QuotaReport {
    pub current_bytes: u64,
    pub additional_bytes: u64,
    pub max_bytes: u64,
}

/// The bytes of the chunks that are not stored yet.
pub open spec fn missing_bytes(chunks: Seq<ChunkRef>, present: Seq<bool>) -> int
    decreases chunks.len(),
{
    if chunks.len() == 0 {
        0
    } else {
        missing_bytes(chunks.drop_last(), present)
            + if present[chunks.len() - 1] { 0int } else { chunks.last().length as int }
    }
}

/// `v`, or `u64::MAX` when it is larger.
pub open spec fn saturate(v: int) -> u64 {
    if v > u64::MAX { u64::MAX } else { v as u64 }
}

/// The bytes storing these chunks adds: the lengths of those not present,
/// added with saturation.
pub fn additional_bytes(chunks: &[ChunkRef], present: &[bool]) -> (r: u64)
    requires
        present@.len() == chunks@.len(),
    ensures
        r == saturate(missing_bytes(chunks@, present@)),
{
    let mut total: u64 = 0;
    let mut i: usize = 0;
    while i < chunks.len()
        invariant
            i <= chunks@.len(),
            present@.len() == chunks@.len(),
            total == saturate(missing_bytes(chunks@.take(i as int), present@)),
            missing_bytes(chunks@.take(i as int), present@) >= 0,
        decreases chunks@.len() - i,
    {
        assert(chunks@.take(i + 1).drop_last() =~= chunks@.take(i as int));
        if !present[i] {
            total = total.saturating_add(chunks[i].length as u64);
        }
        i = i + 1;
    }
    assert(chunks@.take(i as int) =~= chunks@);
    total
}

impl QuotaEnforcer {
    /// An enforcer with these settings.
    pub fn new(config: QuotaConfig) -> (r: QuotaEnforcer)
        ensures
            r.max_storage_gb() == config.max_storage_gb,
    {
        QuotaEnforcer { config }
    }

    /// The configured limit in GiB.
    pub closed spec fn max_storage_gb(&self) -> u64 {
        self.config.max_storage_gb
    }

    /// Check storing `additional_bytes` on top of `current_bytes`: refused
    /// when the (saturated) sum exceeds the limit, which is reported as the
    /// current size.
    pub fn check_storage_quota(&self, current_bytes: u64, additional_bytes: u64) -> (r: Result<QuotaReport, LatticeError>)
        requires
            self.max_storage_gb() * GIB <= u64::MAX,
        ensures
            ({
                let max = self.max_storage_gb() * GIB;
                let projected = saturate(current_bytes + additional_bytes);
                &&& projected > max ==> r == Err::<QuotaReport, LatticeError>(
                    LatticeError::QuotaExceeded { current_bytes: projected, max_bytes: max as u64 },
                )
                &&& projected <= max ==> r == Ok::<QuotaReport, LatticeError>(
                    QuotaReport { current_bytes, additional_bytes, max_bytes: max as u64 },
                )
            }),
    {
        let max_bytes = self.config.max_storage_gb * GIB;
        let projected = current_bytes.saturating_add(additional_bytes);
        if projected > max_bytes {
            return Err(LatticeError::QuotaExceeded { current_bytes: projected, max_bytes });
        }
        Ok(QuotaReport { current_bytes, additional_bytes, max_bytes })
    }
}

} // verus!
