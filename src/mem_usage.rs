use vstd::prelude::*;

verus! {

/// The physical memory that a process uses.
///
/// The numbers are given in bytes for simplicity, but are no more precise
/// than what the system writes: a whole number of KiB.
#[derive(Debug, Clone, Copy)]
pub struct MemUsage {
    /// The memory that the process holds now (`VmRSS`), in bytes.
    pub current: usize,
    /// The most memory that the process has held (`VmPeak`), in bytes.
    pub peak: usize,
}

/// The largest number of KiB whose count of bytes fits in `usize`.
pub open spec fn max_kib() -> usize {
    (usize::MAX / 1024) as usize
}

/// The number of bytes in `kib` KiB, or `None` where that does not fit in `usize`.
pub fn bytes_of_kib(kib: usize) -> (r: Option<usize>)
    ensures
        kib <= max_kib() ==> r == Some((kib * 1024) as usize),
        kib > max_kib() ==> r is None,
{
    if kib > usize::MAX / 1024 {
        None
    } else {
        Some(kib * 1024)
    }
}

} // verus!
