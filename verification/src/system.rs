use vstd::prelude::*;

verus! {

/// Why a telemetry reading is missing.
#[derive(Clone, Copy, Debug, PartialEq, Eq, Structural)]
pub enum SystemError {
    ProcessNotFound,
    MemoryReadError,
    CpuReadError,
}

/// Bytes in a mebibyte.
pub const MEBIBYTE: u64 = 1048576;

/// Bit pattern of the single-precision zero with its sign bit set.
pub const NEGATIVE_ZERO: u32 = 0x8000_0000;

/// Bit pattern of the single-precision negative infinity.
pub const NEGATIVE_INFINITY: u32 = 0xFF80_0000;

/// A reading: the memory in use, in mebibytes, and the processor load, a
/// single-precision number held by its bit pattern.
pub type Reading = (u64, u32);

/// Whether a single-precision bit pattern encodes a number below zero.
pub open spec fn below_zero(bits: u32) -> bool {
    NEGATIVE_ZERO < bits <= NEGATIVE_INFINITY
}

/// What is reported for a process: nothing is known of one that was not
/// found, a load below zero is a fault, and memory is reported in whole
/// mebibytes.
pub open spec fn reading_of(process: Option<(u64, u32)>) -> Result<Reading, SystemError> {
    match process {
        None => Err(SystemError::ProcessNotFound),
        Some((memory_bytes, cpu)) => if below_zero(cpu) {
            Err(SystemError::CpuReadError)
        } else {
            Ok(((memory_bytes / MEBIBYTE) as u64, cpu))
        },
    }
}

/// Computes [`reading_of`] from the memory in bytes and the load of the
/// process, where it was found.
pub fn take_reading(process: Option<(u64, u32)>) -> (r: Result<Reading, SystemError>)
    ensures
        r == reading_of(process),
{
    match process {
        None => Err(SystemError::ProcessNotFound),
        Some((memory_bytes, cpu)) => {
            let memory: u64 = memory_bytes / MEBIBYTE;
            if cpu > NEGATIVE_ZERO && cpu <= NEGATIVE_INFINITY {
                Err(SystemError::CpuReadError)
            } else {
                Ok((memory, cpu))
            }
        },
    }
}

/// The figures shown on the debug overlay.
#[derive(Clone, Copy, Debug, PartialEq, Eq)]
pub struct SystemInfo {
    pub process_memory: u64,
    pub cpu_usage: u32,
    pub fps: u32,
    pub frames_count: u32,
}

impl SystemInfo {
    /// The figures after one more frame. The frame is counted; where a second
    /// has gone by since the rate was last taken, the count becomes the rate
    /// and starts again. A reading that has arrived replaces the figures it
    /// brings, and a fault clears the figures it speaks of.
    pub open spec fn updated(
        self,
        second_elapsed: bool,
        message: Option<Result<Reading, SystemError>>,
    ) -> SystemInfo {
        let counted = self.frames_count + 1;
        let fps = if second_elapsed {
            counted as u32
        } else {
            self.fps
        };
        let frames_count = if second_elapsed {
            0u32
        } else {
            counted as u32
        };
        let (process_memory, cpu_usage) = match message {
            None => (self.process_memory, self.cpu_usage),
            Some(Ok((memory, cpu))) => (memory, cpu),
            Some(Err(SystemError::ProcessNotFound)) => (0u64, 0u32),
            Some(Err(SystemError::MemoryReadError)) => (0u64, self.cpu_usage),
            Some(Err(SystemError::CpuReadError)) => (self.process_memory, 0u32),
        };
        SystemInfo { process_memory, cpu_usage, fps, frames_count }
    }

    /// Figures that are all zero.
    pub fn new() -> (info: SystemInfo)
        ensures
            info == (SystemInfo { process_memory: 0, cpu_usage: 0, fps: 0, frames_count: 0 }),
    {
        SystemInfo { process_memory: 0, cpu_usage: 0, fps: 0, frames_count: 0 }
    }

    /// Accounts for one frame and for the message that has arrived, if any.
    pub fn update(&mut self, second_elapsed: bool, message: Option<Result<Reading, SystemError>>)
        requires
            old(self).frames_count < u32::MAX,
        ensures
            *final(self) == old(self).updated(second_elapsed, message),
    {
        self.frames_count += 1;
        if second_elapsed {
            self.fps = self.frames_count;
            self.frames_count = 0;
        }
        match message {
            Some(Ok((memory, cpu))) => {
                self.process_memory = memory;
                self.cpu_usage = cpu;
            },
            Some(Err(SystemError::ProcessNotFound)) => {
                self.process_memory = 0;
                self.cpu_usage = 0;
            },
            Some(Err(SystemError::MemoryReadError)) => {
                self.process_memory = 0;
            },
            Some(Err(SystemError::CpuReadError)) => {
                self.cpu_usage = 0;
            },
            None => {},
        }
    }
}

} // verus!
