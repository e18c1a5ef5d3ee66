//! Running the kernel's own tests inside an emulator, which leaves through
//! a debug-exit device.

use vstd::prelude::*;

verus! {

/// How a test run ended, as it is written to the debug-exit device.
#[derive(Clone, Copy, Debug, PartialEq, Eq, Structural)]
pub enum TestResult {
    Success,
    Failure,
}

proof fn lemma_shifted_codes()
    by (bit_vector)
    ensures
        (0x10u32 << 1) | 1 == 33,
        (0x11u32 << 1) | 1 == 35,
{
}

impl TestResult {
    /// Port of the debug-exit device.
    pub const EXIT_PORT: u16 = 0xf4;

    /// The value written to the device.
    pub open spec fn spec_code(self) -> u32 {
        match self {
            TestResult::Success => 0x10,
            TestResult::Failure => 0x11,
        }
    }

    /// The value written to the device.
    #[verifier::when_used_as_spec(spec_code)]
    pub fn code(self) -> (code: u32)
        ensures
            code == self.spec_code(),
    {
        match self {
            TestResult::Success => 0x10,
            TestResult::Failure => 0x11,
        }
    }

    /// The status with which the emulator leaves when `code()` is written
    /// to the device: it shifts the value left by one and sets the lowest
    /// bit, so a run that passed ends with 33 and one that failed with 35.
    pub fn exit_status(self) -> (status: u32)
        ensures
            status == (self.spec_code() << 1) | 1,
            status == (match self {
                TestResult::Success => 33u32,
                TestResult::Failure => 35u32,
            }),
    {
        proof {
            lemma_shifted_codes();
        }
        (self.code() << 1) | 1
    }
}

/// A test.
pub trait Test {
    fn run(&self);
}

/// Runs every test, in order, and says how the run ended.
pub fn test_runner(tests: &[&dyn Test]) -> (result: TestResult)
    ensures
        result == TestResult::Success,
{
    let mut i: usize = 0;
    while i < tests.len()
        invariant
            i <= tests.len(),
        decreases tests.len() - i,
    {
        tests[i].run();
        i += 1;
    }
    TestResult::Success
}

} // verus!
