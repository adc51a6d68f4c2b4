use vstd::prelude::*;
use crate::error::PreclearError;

verus! {

/// Smallest block size chosen automatically (1 MiB).
pub const MIN_BLOCK_SIZE: u64 = 1048576;

/// Largest block size chosen automatically (128 MiB).
pub const MAX_BLOCK_SIZE: u64 = 134217728;

/// Sector size taken when the device does not report one.
pub const DEFAULT_SECTOR_SIZE: u64 = 512;

/// Number of parts the device is divided into when choosing a block size.
pub const BLOCK_PARTS: u64 = 1000;

/// The block size policy: an explicit size is taken verbatim; otherwise the
/// device is cut into about a thousand whole-sector parts, clamped to
/// `[MIN_BLOCK_SIZE, MAX_BLOCK_SIZE]`.
pub open spec fn spec_block_size(disk_size: nat, sector_size: nat, explicit: Option<u64>) -> nat {
    match explicit {
        Some(b) => b as nat,
        None => {
            let sector = if sector_size == 0 { DEFAULT_SECTOR_SIZE as nat } else { sector_size };
            let raw = disk_size / (BLOCK_PARTS as nat) / sector * sector;
            if raw < MIN_BLOCK_SIZE {
                MIN_BLOCK_SIZE as nat
            } else if raw > MAX_BLOCK_SIZE {
                MAX_BLOCK_SIZE as nat
            } else {
                raw
            }
        },
    }
}

/// Number of blocks of `block_size` bytes needed to cover `disk_size` bytes.
pub open spec fn ceil_div(disk_size: nat, block_size: nat) -> nat
    recommends
        block_size > 0,
{
    ((disk_size + block_size - 1) as nat) / block_size
}

/// First byte of block `index`.
pub open spec fn block_first(block_size: nat, index: nat) -> nat {
    index * block_size
}

/// Last byte (inclusive) of block `index`: a full block, cut at the last
/// byte of the device.
pub open spec fn block_last(disk_size: nat, block_size: nat, index: nat) -> nat {
    let end = index * block_size + block_size - 1;
    if end >= disk_size {
        (disk_size - 1) as nat
    } else {
        end as nat
    }
}

/// Number of bytes in block `index`.
pub open spec fn block_len(disk_size: nat, block_size: nat, index: nat) -> nat {
    (block_last(disk_size, block_size, index) + 1 - block_first(block_size, index)) as nat
}

/// Chooses the block size for a device of `disk_size` bytes whose physical
/// sector size is `sector_size` (0 when unknown).
pub fn choose_block_size(disk_size: u64, sector_size: u32, explicit: Option<u64>) -> (r: u64)
    ensures
        r as nat == spec_block_size(disk_size as nat, sector_size as nat, explicit),
        explicit is None ==> MIN_BLOCK_SIZE <= r <= MAX_BLOCK_SIZE,
{
    match explicit {
        Some(b) => b,
        None => {
            let sector: u64 = if sector_size == 0 { DEFAULT_SECTOR_SIZE } else { sector_size as u64 };
            let parts: u64 = disk_size / BLOCK_PARTS / sector;
            assert(parts * sector <= disk_size) by (nonlinear_arith)
                requires
                    parts == disk_size / 1000 / sector,
                    sector > 0,
            {
                assert(parts * sector <= disk_size / 1000) by {
                    vstd::arithmetic::div_mod::lemma_fundamental_div_mod(
                        (disk_size / 1000) as int,
                        sector as int,
                    );
                }
            }
            let raw: u64 = parts * sector;
            if raw < MIN_BLOCK_SIZE {
                MIN_BLOCK_SIZE
            } else if raw > MAX_BLOCK_SIZE {
                MAX_BLOCK_SIZE
            } else {
                raw
            }
        },
    }
}

/// Number of blocks needed to cover the device: `ceil(disk_size / block_size)`.
pub fn block_count(disk_size: u64, block_size: u64) -> (r: u64)
    requires
        block_size > 0,
    ensures
        r as nat == ceil_div(disk_size as nat, block_size as nat),
{
    let q: u64 = disk_size / block_size;
    let rem: u64 = disk_size % block_size;
    proof {
        lemma_ceil_div(disk_size as nat, block_size as nat);
    }
    if rem == 0 {
        q
    } else {
        assert(q < u64::MAX) by (nonlinear_arith)
            requires
                q == disk_size / block_size,
                rem == disk_size % block_size,
                rem != 0,
                block_size > 0,
        {
            vstd::arithmetic::div_mod::lemma_fundamental_div_mod(disk_size as int, block_size as int);
            assert(block_size >= 2);
        }
        q + 1
    }
}

proof fn lemma_ceil_div(d: nat, b: nat)
    requires
        b > 0,
    ensures
        ceil_div(d, b) == if d % b == 0 { d / b } else { d / b + 1 },
        ceil_div(d, b) * b >= d,
        d > 0 ==> (ceil_div(d, b) - 1) * b < d,
{
    let di = d as int;
    let bi = b as int;
    vstd::arithmetic::div_mod::lemma_fundamental_div_mod(di, bi);
    let q: int = di / bi;
    let r: int = di % bi;
    let c: int = if r == 0 { q } else { q + 1 };
    let rest: int = if r == 0 { bi - 1 } else { r - 1 };
    assert(di + bi - 1 == c * bi + rest) by (nonlinear_arith)
        requires
            di == bi * q + r,
            c == if r == 0 { q } else { q + 1 },
            rest == if r == 0 { bi - 1 } else { r - 1 },
    ;
    vstd::arithmetic::div_mod::lemma_fundamental_div_mod_converse(di + bi - 1, bi, c, rest);
    assert(c * bi >= di) by (nonlinear_arith)
        requires
            di == bi * q + r,
            0 <= r < bi,
            c == if r == 0 { q } else { q + 1 },
    ;
    assert(di > 0 ==> (c - 1) * bi < di) by (nonlinear_arith)
        requires
            di == bi * q + r,
            0 <= r < bi,
            c == if r == 0 { q } else { q + 1 },
    ;
}

/// The blocks tile the device: there are `ceil(disk_size / block_size)` of
/// them, each begins where the previous one ended, the first begins at byte 0,
/// the last ends at the device's last byte, and all but the last are exactly
/// `block_size` bytes long; every index past them is out of range.
pub proof fn lemma_blocks_tile(disk_size: nat, block_size: nat)
    requires
        disk_size > 0,
        block_size > 0,
    ensures
        ceil_div(disk_size, block_size) >= 1,
        block_first(block_size, 0) == 0,
        block_last(disk_size, block_size, (ceil_div(disk_size, block_size) - 1) as nat) == disk_size - 1,
        forall|i: nat| #![trigger block_first(block_size, i)]
            i < ceil_div(disk_size, block_size) <==> block_first(block_size, i) < disk_size,
        forall|i: nat| #![trigger block_last(disk_size, block_size, i)]
            i < ceil_div(disk_size, block_size) ==> block_first(block_size, i) <= block_last(disk_size, block_size, i),
        forall|i: nat| #![trigger block_last(disk_size, block_size, i)]
            i + 1 < ceil_div(disk_size, block_size) ==> block_last(disk_size, block_size, i) + 1
                == block_first(block_size, i + 1),
        forall|i: nat| #![trigger block_len(disk_size, block_size, i)]
            i + 1 < ceil_div(disk_size, block_size) ==> block_len(disk_size, block_size, i) == block_size,
        forall|i: nat| #![trigger block_len(disk_size, block_size, i)]
            i < ceil_div(disk_size, block_size) ==> 1 <= block_len(disk_size, block_size, i) <= block_size,
{
    let d = disk_size;
    let b = block_size;
    let n = ceil_div(d, b);
    lemma_ceil_div(d, b);
    assert(n >= 1) by (nonlinear_arith)
        requires
            n * b >= d,
            d > 0,
    ;
    assert(block_first(b, 0) == 0);
    assert(n * b == (n - 1) * b + b) by (nonlinear_arith)
        requires
            n >= 1,
    ;
    assert forall|i: nat| i < n <==> #[trigger] block_first(b, i) < d by {
        if i < n {
            assert(i * b <= (n - 1) * b) by (nonlinear_arith)
                requires
                    i < n,
                    b > 0,
            ;
        } else {
            assert(i * b >= n * b) by (nonlinear_arith)
                requires
                    i >= n,
                    b > 0,
            ;
        }
    }
    assert forall|i: nat| i + 1 < n implies #[trigger] block_last(d, b, i) == i * b + b - 1 by {
        if i + 1 < n {
            assert((i + 1) * b <= (n - 1) * b) by (nonlinear_arith)
                requires
                    i + 1 <= n - 1,
                    b > 0,
            ;
            assert((i + 1) * b == i * b + b) by (nonlinear_arith);
        }
    }
    assert forall|i: nat| i + 1 < n implies #[trigger] block_last(d, b, i) + 1 == block_first(b, i + 1) by {
        if i + 1 < n {
            assert((i + 1) * b == i * b + b) by (nonlinear_arith);
        }
    }
    assert forall|i: nat| i < n implies 1 <= #[trigger] block_len(d, b, i) <= b by {
        if i < n {
            assert(block_first(b, i) < d);
        }
    }
}

/// The inclusive byte range `(first, last)` of block `index`; fails with
/// `BlockOutOfRange` when the block would begin at or beyond the end of the
/// device.
pub fn block_offset(disk_size: u64, block_size: u64, index: u64) -> (r: Result<(u64, u64), PreclearError>)
    requires
        block_size > 0,
    ensures
        index * block_size >= disk_size <==> r == Err::<(u64, u64), PreclearError>(
            PreclearError::BlockOutOfRange,
        ),
        index * block_size < disk_size ==> r == Ok::<(u64, u64), PreclearError>(
            (
                block_first(block_size as nat, index as nat) as u64,
                block_last(disk_size as nat, block_size as nat, index as nat) as u64,
            ),
        ),
{
    let start: u64 = match index.checked_mul(block_size) {
        Some(s) => s,
        None => {
            return Err(PreclearError::BlockOutOfRange);
        },
    };
    if start >= disk_size {
        return Err(PreclearError::BlockOutOfRange);
    }
    let room: u64 = disk_size - 1 - start;
    let end: u64 = if block_size - 1 >= room {
        disk_size - 1
    } else {
        start + (block_size - 1)
    };
    Ok((start, end))
}

/// Rejects an explicit block size under 16 bytes or not a multiple of 16.
pub fn validate_block_size(block_size: u64) -> (r: Result<u64, PreclearError>)
    ensures
        block_size < 16 <==> r == Err::<u64, PreclearError>(PreclearError::BlockSizeTooSmall),
        block_size >= 16 && block_size % 16 != 0 <==> r == Err::<u64, PreclearError>(
            PreclearError::BlockSizeNotMultipleOf16,
        ),
        block_size >= 16 && block_size % 16 == 0 <==> r == Ok::<u64, PreclearError>(block_size),
{
    if block_size < 16 {
        Err(PreclearError::BlockSizeTooSmall)
    } else if block_size % 16 != 0 {
        Err(PreclearError::BlockSizeNotMultipleOf16)
    } else {
        Ok(block_size)
    }
}

/// How a device is cut into blocks.
#[derive(Debug, Clone, Copy, PartialEq, Eq, Structural)]
pub struct DevicePlan {
    /// Device length in bytes.
    pub disk_size: u64,
    /// Physical sector size, 0 when unknown.
    pub sector_size: u32,
    /// Length of every block but possibly the last.
    pub block_size: u64,
    /// Number of blocks: `ceil(disk_size / block_size)`.
    pub block_count: u64,
}

impl DevicePlan {
    /// A plan is usable when the device is not empty and blocks are at
    /// least one cipher block long.
    pub open spec fn wf(&self) -> bool {
        &&& self.disk_size > 0
        &&& self.block_size >= 16
        &&& self.block_count as nat == ceil_div(self.disk_size as nat, self.block_size as nat)
    }

    /// Plans a device of `disk_size` bytes with the block size policy of
    /// `choose_block_size`.
    pub fn new(disk_size: u64, sector_size: u32, explicit: Option<u64>) -> (r: DevicePlan)
        requires
            explicit matches Some(b) ==> b >= 16,
        ensures
            r.disk_size == disk_size,
            r.sector_size == sector_size,
            r.block_size as nat == spec_block_size(disk_size as nat, sector_size as nat, explicit),
            r.block_count as nat == ceil_div(disk_size as nat, r.block_size as nat),
            r.block_size >= 16,
            disk_size > 0 ==> r.wf(),
    {
        let block_size = choose_block_size(disk_size, sector_size, explicit);
        let block_count = block_count(disk_size, block_size);
        DevicePlan { disk_size, sector_size, block_size, block_count }
    }

    /// The inclusive byte range of block `index`, as `block_offset`.
    pub fn block_range(&self, index: u64) -> (r: Result<(u64, u64), PreclearError>)
        requires
            self.block_size > 0,
        ensures
            r == block_offset_result(self.disk_size, self.block_size, index),
    {
        block_offset(self.disk_size, self.block_size, index)
    }
}

/// What `block_offset` returns.
pub open spec fn block_offset_result(disk_size: u64, block_size: u64, index: u64) -> Result<(u64, u64), PreclearError> {
    if index * block_size >= disk_size {
        Err(PreclearError::BlockOutOfRange)
    } else {
        Ok(
            (
                block_first(block_size as nat, index as nat) as u64,
                block_last(disk_size as nat, block_size as nat, index as nat) as u64,
            ),
        )
    }
}

} // verus!
