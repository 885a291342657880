//! The figures of a disk write benchmark: the data that is written, and the
//! speed that the measured time amounts to.

use vstd::prelude::*;

verus! {

/// The number of files that a benchmark writes.
pub const FILE_COUNT: usize = 5;

/// The size of each file, in bytes: 50 MiB.
pub const FILE_SIZE: usize = 50 * 1024 * 1024;

/// The number of bytes that a benchmark writes in all: 250 MiB.
pub const TOTAL_BYTES: u64 = 5 * 50 * 1024 * 1024;

/// The number of bytes in a MiB.
pub const MIB: u64 = 1024 * 1024;

/// The speed that is reported where the time was too short to measure.
pub const UNMEASURED_SPEED: u64 = 1000;

/// The result of a benchmark.
#[derive(Clone, Copy, Debug, PartialEq, Eq, Structural)]
pub struct DiskBenchmarkResult {
    /// The speed in MiB per second.
    pub speed_mbps: u64,
    /// The number of bytes written.
    pub bytes_written: u64,
    /// The time taken, in milliseconds.
    pub elapsed_ms: u64,
}

/// The byte at position `at` of the test data.
pub open spec fn pattern_at(at: int) -> int {
    (at * 17 + 31) % 256
}

/// The speed, in whole MiB per second, of writing `bytes` bytes in
/// `elapsed_ms` milliseconds; bytes short of a MiB do not count.
pub open spec fn speed_of(bytes: int, elapsed_ms: int) -> int {
    if elapsed_ms > 0 {
        (bytes / (MIB as int)) * 1000 / elapsed_ms
    } else {
        UNMEASURED_SPEED as int
    }
}

/// The byte at position `at` of the test data.
pub fn pattern_byte(at: usize) -> (byte: u8)
    ensures
        byte == pattern_at(at as int),
{
    let low: usize = at % 256;
    assert((at * 17 + 31) % 256 == (low * 17 + 31) % 256) by {
        let q = at as int / 256;
        assert(at * 17 + 31 == (low * 17 + 31) + 256 * (17 * q)) by (nonlinear_arith)
            requires
                at == 256 * q + low,
        ;
        vstd::arithmetic::div_mod::lemma_mod_multiples_vanish(17 * q, low * 17 + 31, 256);
    }
    ((low * 17 + 31) % 256) as u8
}

/// The first `len` bytes of the test data.
pub fn test_data(len: usize) -> (data: Vec<u8>)
    ensures
        data.len() == len,
        forall|at: int| 0 <= at < len ==> (#[trigger] data[at]) == pattern_at(at),
{
    let mut data: Vec<u8> = Vec::new();
    let mut at: usize = 0;
    while at < len
        invariant
            at <= len,
            data.len() == at,
            forall|j: int| 0 <= j < at ==> (#[trigger] data[j]) == pattern_at(j),
        decreases len - at,
    {
        data.push(pattern_byte(at));
        at += 1;
    }
    data
}

/// The speed of writing `bytes` bytes in `elapsed_ms` milliseconds.
pub fn speed_mbps(bytes: u64, elapsed_ms: u64) -> (speed: u64)
    ensures
        speed == speed_of(bytes as int, elapsed_ms as int),
{
    if elapsed_ms > 0 {
        let mib: u64 = bytes / MIB;
        mib * 1000 / elapsed_ms
    } else {
        UNMEASURED_SPEED
    }
}

/// The result of a benchmark that wrote all its files in `elapsed_ms`
/// milliseconds.
pub fn benchmark_result(elapsed_ms: u64) -> (result: DiskBenchmarkResult)
    ensures
        result.speed_mbps == speed_of(TOTAL_BYTES as int, elapsed_ms as int),
        result.bytes_written == TOTAL_BYTES,
        result.elapsed_ms == elapsed_ms,
{
    DiskBenchmarkResult {
        speed_mbps: speed_mbps(TOTAL_BYTES, elapsed_ms),
        bytes_written: TOTAL_BYTES,
        elapsed_ms,
    }
}

} // verus!
