use vstd::prelude::*;
use crate::error::PreclearError;
use crate::key::KeyMaterial;
use crate::options::{Options, WriteMode};
use crate::pattern::{PatternEngine, MIN_PATTERN_LEN, fill_pattern, xts_decrypted, zero_block};
use crate::plan::{DevicePlan, ceil_div, block_first, block_last, block_len, spec_block_size, lemma_blocks_tile};

verus! {

/// Hundredths of a MiB per second in which speeds are given.
pub const SPEED_SCALE: u128 = 100;

/// Nanoseconds in a second.
pub const NANOS_PER_SEC: u128 = 1000000000;

/// Bytes in a MiB.
pub const MIB: u128 = 1048576;

/// Throughput in hundredths of a MiB per second; zero when no time elapsed.
pub open spec fn speed(bytes: nat, nanos: nat) -> nat {
    if nanos == 0 {
        0
    } else {
        bytes * (SPEED_SCALE * NANOS_PER_SEC) as nat / (nanos * MIB as nat)
    }
}

/// Computes `speed(bytes, nanos)`.
pub fn throughput(bytes: u64, nanos: u64) -> (r: u128)
    ensures
        r as nat == speed(bytes as nat, nanos as nat),
{
    if nanos == 0 {
        0
    } else {
        let b: u128 = bytes as u128;
        let n: u128 = nanos as u128;
        assert(b * 100000000000 <= 18446744073709551615u128 * 100000000000) by (nonlinear_arith)
            requires
                b <= 18446744073709551615u128,
        ;
        assert(n * 1048576 <= 18446744073709551615u128 * 1048576) by (nonlinear_arith)
            requires
                n <= 18446744073709551615u128,
        ;
        assert(n * 1048576 > 0) by (nonlinear_arith)
            requires
                n > 0,
        ;
        (b * (SPEED_SCALE * NANOS_PER_SEC)) / (n * MIB)
    }
}

/// What one finished block reports.
#[derive(Debug, Clone, Copy, PartialEq, Eq, Structural)]
pub struct Progress {
    /// Share of the device up to the end of this block, in whole percent.
    pub percent: u64,
    /// Offset just past this block.
    pub bytes_done: u64,
    /// Speed of this block, in hundredths of a MiB per second.
    pub instant_speed: u128,
    /// `bytes_done` over the pass's elapsed time, in hundredths of a MiB per second.
    pub overall_speed: u128,
}

/// The report for block `index` of `plan`, which took `instant_nanos`,
/// `overall_nanos` having passed since its pass began.
pub open spec fn progress_of(plan: DevicePlan, index: u64, instant_nanos: u64, overall_nanos: u64) -> Progress {
    let last = block_last(plan.disk_size as nat, plan.block_size as nat, index as nat);
    Progress {
        percent: (100 * (last + 1) / plan.disk_size as nat) as u64,
        bytes_done: (last + 1) as u64,
        instant_speed: speed(
            block_len(plan.disk_size as nat, plan.block_size as nat, index as nat),
            instant_nanos as nat,
        ) as u128,
        overall_speed: speed(last + 1, overall_nanos as nat) as u128,
    }
}

/// How a successful run is summed up.
#[derive(Debug, Clone, Copy, PartialEq, Eq, Structural)]
pub enum Outcome {
    /// The pattern was written and read back intact.
    ReadWriteTest,
    /// Zeros were written and read back intact.
    DiskCleaned,
    /// The device was read through.
    ReadTest,
}

pub open spec fn outcome_of(mode: WriteMode) -> Outcome {
    match mode {
        WriteMode::Random => Outcome::ReadWriteTest,
        WriteMode::Zero => Outcome::DiskCleaned,
        WriteMode::ReadOnly => Outcome::ReadTest,
    }
}

/// Where a run stands.
#[derive(Debug, Clone, Copy, PartialEq, Eq, Structural)]
pub enum Phase {
    Write,
    Verify,
    Done,
    Failed,
}

/// What the caller is to do next.
#[derive(Debug, Clone, Copy, PartialEq, Eq, Structural)]
pub enum Step {
    /// Write `block_data()` (`len` bytes) at byte `first`.
    Write { index: u64, first: u64, len: u64 },
    /// Read `len` bytes at byte `first` into the front of a block-size buffer.
    Read { index: u64, first: u64, len: u64 },
    /// The run succeeded.
    Finished(Outcome),
    /// The run stopped on a validation mismatch.
    Failed,
}

/// The bytes that stand in a whole block after the write pass.
pub open spec fn block_image(mode: WriteMode, key: Seq<u8>, block_size: nat) -> Seq<u8> {
    if mode is Random {
        fill_pattern(key, block_size)
    } else {
        zero_block(block_size)
    }
}

/// A block's data as the verify pass checks it: in random mode the block's
/// `len` bytes, completed to a whole block with the fill pattern, and
/// decrypted.
pub open spec fn checked_data(mode: WriteMode, key: Seq<u8>, data: Seq<u8>, len: nat) -> Seq<u8> {
    if mode is Random {
        let completed = data.subrange(0, len as int) + fill_pattern(key, data.len()).subrange(
            len as int,
            data.len() as int,
        );
        xts_decrypted(key, completed)
    } else {
        data
    }
}

/// `j` is the first index below `len` at which `s` holds a non-zero byte.
pub open spec fn is_first_nonzero(s: Seq<u8>, len: nat, j: int) -> bool {
    &&& 0 <= j < len
    &&& s[j] != 0
    &&& forall|k: int| 0 <= k < j ==> s[k] == 0
}

/// `s` holds only zero bytes below `len`.
pub open spec fn zero_prefix(s: Seq<u8>, len: nat) -> bool {
    forall|k: int| 0 <= k < len ==> s[k] == 0
}

/// The write pass and the verify pass over the blocks
/// `start_block .. plan.block_count`.
pub struct Run {
    pub plan: DevicePlan,
    pub mode: WriteMode,
    pub engine: PatternEngine,
    /// First block of both passes.
    pub start_block: u64,
    pub phase: Phase,
    /// Block the current pass handles next.
    pub next_block: u64,
}

impl Run {
    pub open spec fn wf(&self) -> bool {
        &&& self.plan.wf()
        &&& self.start_block < self.plan.block_count
        &&& self.start_block <= self.next_block <= self.plan.block_count
        &&& (self.phase is Write || self.phase is Verify) ==> self.next_block < self.plan.block_count
        &&& self.phase is Write ==> self.mode.writes()
    }

    /// First byte and length of the block the current pass handles next.
    pub open spec fn current_first(&self) -> nat {
        block_first(self.plan.block_size as nat, self.next_block as nat)
    }

    pub open spec fn current_len(&self) -> nat {
        block_len(self.plan.disk_size as nat, self.plan.block_size as nat, self.next_block as nat)
    }

    pub open spec fn spec_step(&self) -> Step {
        match self.phase {
            Phase::Write => Step::Write {
                index: self.next_block,
                first: self.current_first() as u64,
                len: self.current_len() as u64,
            },
            Phase::Verify => Step::Read {
                index: self.next_block,
                first: self.current_first() as u64,
                len: self.current_len() as u64,
            },
            Phase::Done => Step::Finished(outcome_of(self.mode)),
            Phase::Failed => Step::Failed,
        }
    }

    /// Plans the run on a device of `disk_size` bytes; a start offset at or
    /// beyond its end is an error. Without an explicit key a random one is
    /// drawn. Both passes begin at the block that holds the start offset.
    pub fn new(options: Options, disk_size: u64, sector_size: u32) -> (r: Result<Run, PreclearError>)
        requires
            options.wf(),
        ensures
            options.start_at >= disk_size <==> r == Err::<Run, PreclearError>(
                PreclearError::StartBeyondDisk,
            ),
            r is Err ==> r == Err::<Run, PreclearError>(PreclearError::StartBeyondDisk),
            r matches Ok(run) ==> {
                &&& run.wf()
                &&& run.plan.disk_size == disk_size
                &&& run.plan.sector_size == sector_size
                &&& run.plan.block_size as nat == spec_block_size(
                    disk_size as nat,
                    sector_size as nat,
                    options.block_size,
                )
                &&& run.mode == options.mode
                &&& run.start_block == options.start_at / run.plan.block_size
                &&& run.next_block == run.start_block
                &&& run.phase == if options.mode.writes() { Phase::Write } else { Phase::Verify }
                &&& options.key matches Some(k) ==> run.engine@ == k@
            },
    {
        if options.start_at >= disk_size {
            return Err(PreclearError::StartBeyondDisk);
        }
        let plan = DevicePlan::new(disk_size, sector_size, options.block_size);
        let start_block: u64 = options.start_at / plan.block_size;
        proof {
            lemma_blocks_tile(disk_size as nat, plan.block_size as nat);
            vstd::arithmetic::div_mod::lemma_fundamental_div_mod(
                options.start_at as int,
                plan.block_size as int,
            );
            assert(start_block * plan.block_size <= options.start_at) by (nonlinear_arith)
                requires
                    plan.block_size * start_block + options.start_at % plan.block_size
                        == options.start_at,
                    options.start_at % plan.block_size >= 0,
            ;
            assert(block_first(plan.block_size as nat, start_block as nat) < disk_size);
        }
        let engine = match options.key {
            Some(k) => PatternEngine::new(k),
            None => PatternEngine::new(KeyMaterial::random()),
        };
        let phase = if options.mode.has_write_pass() { Phase::Write } else { Phase::Verify };
        Ok(Run { plan, mode: options.mode, engine, start_block, phase, next_block: start_block })
    }
}

impl Run {
    /// The byte range of the current block.
    fn current_range(&self) -> (r: (u64, u64))
        requires
            self.wf(),
            self.phase is Write || self.phase is Verify,
        ensures
            r.0 as nat == self.current_first(),
            r.1 as nat == block_last(
                self.plan.disk_size as nat,
                self.plan.block_size as nat,
                self.next_block as nat,
            ),
            r.0 <= r.1 < self.plan.disk_size,
            r.1 - r.0 + 1 == self.current_len(),
            self.current_len() <= self.plan.block_size,
    {
        proof {
            lemma_blocks_tile(self.plan.disk_size as nat, self.plan.block_size as nat);
            assert(block_first(self.plan.block_size as nat, self.next_block as nat) < self.plan.disk_size);
            assert(self.current_len() <= self.plan.block_size);
        }
        match self.plan.block_range(self.next_block) {
            Ok(range) => range,
            Err(_) => {
                proof {
                    assert(false);
                }
                (0, 0)
            },
        }
    }

    /// The report for the current block.
    fn progress(&self, instant_nanos: u64, overall_nanos: u64) -> (p: Progress)
        requires
            self.wf(),
            self.phase is Write || self.phase is Verify,
        ensures
            p == progress_of(self.plan, self.next_block, instant_nanos, overall_nanos),
    {
        let (first, last) = self.current_range();
        let done: u64 = last + 1;
        let percent: u128 = 100u128 * (done as u128) / (self.plan.disk_size as u128);
        assert(percent <= 100) by (nonlinear_arith)
            requires
                percent == 100 * (done as int) / (self.plan.disk_size as int),
                done <= self.plan.disk_size,
                self.plan.disk_size > 0,
        {
            vstd::arithmetic::div_mod::lemma_div_is_ordered(
                100 * (done as int),
                100 * (self.plan.disk_size as int),
                self.plan.disk_size as int,
            );
            vstd::arithmetic::div_mod::lemma_div_by_multiple(100, self.plan.disk_size as int);
        }
        Progress {
            percent: percent as u64,
            bytes_done: done,
            instant_speed: throughput(last - first + 1, instant_nanos),
            overall_speed: throughput(done, overall_nanos),
        }
    }

    /// What the caller is to do next.
    pub fn next_step(&self) -> (r: Step)
        requires
            self.wf(),
        ensures
            r == self.spec_step(),
    {
        match self.phase {
            Phase::Write => {
                let (first, last) = self.current_range();
                Step::Write { index: self.next_block, first, len: last - first + 1 }
            },
            Phase::Verify => {
                let (first, last) = self.current_range();
                Step::Read { index: self.next_block, first, len: last - first + 1 }
            },
            Phase::Done => Step::Finished(self.outcome()),
            Phase::Failed => Step::Failed,
        }
    }

    /// How the run is summed up once it has succeeded.
    pub fn outcome(&self) -> (r: Outcome)
        ensures
            r == outcome_of(self.mode),
    {
        match self.mode {
            WriteMode::Random => Outcome::ReadWriteTest,
            WriteMode::Zero => Outcome::DiskCleaned,
            WriteMode::ReadOnly => Outcome::ReadTest,
        }
    }

    /// The bytes to write for the current block: the block image cut to the
    /// block's length. Every block gets the same image.
    pub fn block_data(&self) -> (r: Vec<u8>)
        requires
            self.wf(),
            self.phase is Write,
            self.plan.block_size <= usize::MAX,
        ensures
            r@ == block_image(self.mode, self.engine@, self.plan.block_size as nat).subrange(
                0,
                self.current_len() as int,
            ),
    {
        let (first, last) = self.current_range();
        let size: usize = self.plan.block_size as usize;
        let mut buffer: Vec<u8> = vec![0u8; size];
        assert(buffer@ == zero_block(size as nat));
        if matches!(self.mode, WriteMode::Random) {
            self.engine.fill(&mut buffer);
        }
        buffer.truncate((last - first + 1) as usize);
        buffer
    }

    /// Replaces the bytes of `buffer` from `len` on with the fill pattern.
    fn complete_with_pattern(&self, buffer: &mut Vec<u8>, len: usize)
        requires
            len <= old(buffer)@.len(),
            old(buffer)@.len() >= MIN_PATTERN_LEN,
        ensures
            final(buffer)@ == old(buffer)@.subrange(0, len as int) + fill_pattern(
                self.engine@,
                old(buffer)@.len(),
            ).subrange(len as int, old(buffer)@.len() as int),
            fill_pattern(self.engine@, old(buffer)@.len()).len() == old(buffer)@.len(),
    {
        let size: usize = buffer.len();
        let mut pattern: Vec<u8> = vec![0u8; size];
        assert(pattern@ == zero_block(size as nat));
        self.engine.fill(&mut pattern);
        let mut k: usize = len;
        while k < size
            invariant
                len <= k <= size,
                size == buffer@.len(),
                pattern@.len() == size,
                pattern@ == fill_pattern(self.engine@, size as nat),
                forall|m: int| 0 <= m < len ==> buffer@[m] == old(buffer)@[m],
                forall|m: int| len <= m < k ==> buffer@[m] == pattern@[m],
            decreases size - k,
        {
            buffer.set(k, pattern[k]);
            k = k + 1;
        }
        assert(buffer@ == old(buffer)@.subrange(0, len as int) + fill_pattern(
            self.engine@,
            size as nat,
        ).subrange(len as int, size as int));
    }

    /// Moves past the current block once it is written, and reports it.
    /// After the last block the verify pass begins at `start_block`.
    pub fn block_written(&mut self, instant_nanos: u64, overall_nanos: u64) -> (p: Progress)
        requires
            old(self).wf(),
            old(self).phase is Write,
        ensures
            final(self).wf(),
            p == progress_of(old(self).plan, old(self).next_block, instant_nanos, overall_nanos),
            final(self).plan == old(self).plan,
            final(self).mode == old(self).mode,
            final(self).engine == old(self).engine,
            final(self).start_block == old(self).start_block,
            old(self).next_block + 1 < old(self).plan.block_count ==> final(self).phase is Write
                && final(self).next_block == old(self).next_block + 1,
            old(self).next_block + 1 == old(self).plan.block_count ==> final(self).phase is Verify
                && final(self).next_block == old(self).start_block,
    {
        let p = self.progress(instant_nanos, overall_nanos);
        if self.next_block + 1 < self.plan.block_count {
            self.next_block = self.next_block + 1;
        } else {
            self.phase = Phase::Verify;
            self.next_block = self.start_block;
        }
        p
    }

    /// Checks the current block, read into the front of `buffer`, and moves
    /// past it. In random mode the rest of the buffer is first filled with
    /// the pattern, so that a short last block is a whole cipher sector, and
    /// the buffer is decrypted; in both write modes the block's bytes must
    /// then all be zero, and the first that is not stops the run with its
    /// absolute offset. A read-only run checks nothing.
    pub fn block_read(&mut self, buffer: &mut Vec<u8>, instant_nanos: u64, overall_nanos: u64) -> (r:
        Result<Progress, PreclearError>)
        requires
            old(self).wf(),
            old(self).phase is Verify,
            old(buffer)@.len() == old(self).plan.block_size,
        ensures
            final(self).wf(),
            final(buffer)@ == checked_data(
                old(self).mode,
                old(self).engine@,
                old(buffer)@,
                old(self).current_len(),
            ),
            final(self).plan == old(self).plan,
            final(self).mode == old(self).mode,
            final(self).engine == old(self).engine,
            final(self).start_block == old(self).start_block,
            r is Err <==> old(self).mode.writes() && !zero_prefix(
                final(buffer)@,
                old(self).current_len(),
            ),
            r matches Err(e) ==> e matches PreclearError::ValidationFailed { offset } && offset
                >= old(self).current_first() && is_first_nonzero(
                final(buffer)@,
                old(self).current_len(),
                offset - old(self).current_first(),
            ),
            r is Err ==> final(self).phase is Failed && final(self).next_block == old(
                self,
            ).next_block,
            r matches Ok(p) ==> p == progress_of(
                old(self).plan,
                old(self).next_block,
                instant_nanos,
                overall_nanos,
            ),
            r is Ok && old(self).next_block + 1 < old(self).plan.block_count ==> final(self).phase
                is Verify && final(self).next_block == old(self).next_block + 1,
            r is Ok && old(self).next_block + 1 == old(self).plan.block_count ==> final(self).phase
                is Done && final(self).next_block == old(self).plan.block_count,
            old(self).mode is Random && old(buffer)@.subrange(0, old(self).current_len() as int)
                == fill_pattern(old(self).engine@, old(self).plan.block_size as nat).subrange(
                0,
                old(self).current_len() as int,
            ) ==> r is Ok,
    {
        let (first, last) = self.current_range();
        let block_len: u64 = last - first + 1;
        let capacity: usize = buffer.len();
        assert(block_len <= capacity);
        let len: usize = block_len as usize;
        let ghost read = buffer@;
        if matches!(self.mode, WriteMode::Random) {
            self.complete_with_pattern(buffer, len);
            proof {
                let pattern = fill_pattern(self.engine@, read.len());
                if read.subrange(0, len as int) == pattern.subrange(0, len as int) {
                    assert(buffer@ =~= pattern);
                }
            }
            self.engine.invert(buffer);
        }
        if !matches!(self.mode, WriteMode::ReadOnly) {
            let mut j: usize = 0;
            while j < len
                invariant
                    j <= len,
                    len <= buffer@.len(),
                    *self == *old(self),
                    self.wf(),
                    self.phase is Verify,
                    len as nat == self.current_len(),
                    self.mode.writes(),
                    self.mode is Random && old(buffer)@.subrange(0, len as int) == fill_pattern(
                        self.engine@,
                        self.plan.block_size as nat,
                    ).subrange(0, len as int) ==> buffer@ == zero_block(buffer@.len()),
                    first as nat == self.current_first(),
                    buffer@ == checked_data(self.mode, self.engine@, old(buffer)@, len as nat),
                    first as int + len as int == last as int + 1,
                    last < self.plan.disk_size,
                    zero_prefix(buffer@, j as nat),
                decreases len - j,
            {
                if buffer[j] != 0 {
                    assert(!zero_prefix(buffer@, len as nat)) by {
                        assert(buffer@[j as int] != 0);
                    }
                    self.phase = Phase::Failed;
                    return Err(PreclearError::ValidationFailed { offset: first + j as u64 });
                }
                j = j + 1;
            }
        }
        let p = self.progress(instant_nanos, overall_nanos);
        if self.next_block + 1 < self.plan.block_count {
            self.next_block = self.next_block + 1;
        } else {
            self.phase = Phase::Done;
            self.next_block = self.plan.block_count;
        }
        Ok(p)
    }
}

/// The pattern does not vary with the block index: any two blocks that are
/// not the last receive the very same bytes, which depend on the mode, the key
/// and the block size alone.
pub proof fn lemma_same_data_every_block(
    mode: WriteMode,
    key: Seq<u8>,
    disk_size: nat,
    block_size: nat,
    i: nat,
    j: nat,
)
    requires
        disk_size > 0,
        block_size > 0,
        i + 1 < ceil_div(disk_size, block_size),
        j + 1 < ceil_div(disk_size, block_size),
    ensures
        block_image(mode, key, block_size).subrange(0, block_len(disk_size, block_size, i) as int)
            == block_image(mode, key, block_size).subrange(
            0,
            block_len(disk_size, block_size, j) as int,
        ),
        block_len(disk_size, block_size, i) == block_size,
{
    lemma_blocks_tile(disk_size, block_size);
}

} // verus!
