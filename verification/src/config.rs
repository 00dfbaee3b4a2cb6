//! The tool's configuration surface: the architecture selection, the
//! configured input and output paths, the dispatch between the two output
//! modes, and the error kinds a run can end with.

use vstd::prelude::*;

verus! {

/// The instruction-set selection: one of four fixed decoder configurations.
#[derive(Clone, Copy, Debug, PartialEq, Eq, Structural)]
pub enum Architecture {
    /// x86 in 64-bit mode.
    X86,
    /// ARM in standard (non-Thumb) 32-bit mode.
    ARM,
    /// MIPS in 32-bit mode.
    MIPS,
    /// RISC-V in 64-bit mode.
    RISCV,
}

/// The minimum length a run of string bytes must reach to be extracted, at
/// this tool's single call site.
pub const MIN_STRING_LENGTH: usize = 4;

/// The base address assumed for a flat binary image, when no structured
/// object declares a load address.
pub const FLAT_BASE_ADDRESS: u64 = 0x1000;

/// What a run can fail with.
#[derive(Debug)]
pub enum DisasmError {
    /// No output path was configured although disassembly was requested.
    MissingOutput,
    /// The external decoder could not be constructed; carries its message.
    DecoderBuild(String),
    /// The external decoder failed on the buffer; carries its message.
    DecodeFailed(String),
}

impl DisasmError {
    /// The single-line diagnostic text of this error.
    pub fn message(&self) -> (r: String)
        ensures
            self is MissingOutput ==> r@ == "Output file is required for disassembly"@,
            self matches DisasmError::DecoderBuild(m) ==> r@ == m@,
            self matches DisasmError::DecodeFailed(m) ==> r@ == m@,
    {
        match self {
            DisasmError::MissingOutput => "Output file is required for disassembly".to_owned(),
            DisasmError::DecoderBuild(m) => m.clone(),
            DisasmError::DecodeFailed(m) => m.clone(),
        }
    }
}

/// Where the run's single report goes: a string-extraction report or a
/// disassembly report, each with its output path. Exactly one of the two is
/// produced per invocation.
pub enum OutputTarget {
    /// Extract strings and write them to the path.
    Strings(String),
    /// Disassemble and write the listing to the path.
    Disassembly(String),
}

/// The parsed command-line configuration.
pub struct Chdisassembler {
    /// Input binary path.
    pub input: String,
    /// Disassembly output path; required unless `strings` is set.
    pub output: Option<String>,
    /// The architecture selection.
    pub arch: Architecture,
    /// String-extraction output path; when present, disassembly is skipped.
    pub strings: Option<String>,
}

impl Chdisassembler {
    /// Decides the run's output mode before any file is touched: a configured
    /// strings path wins over everything, a disassembly run needs an output
    /// path, and a configuration with neither is an error.
    pub fn plan(&self) -> (r: Result<OutputTarget, DisasmError>)
        ensures
            self.strings matches Some(p) ==> r == Ok::<OutputTarget, DisasmError>(
                OutputTarget::Strings(p),
            ),
            self.strings is None ==> (self.output matches Some(p) ==> r == Ok::<
                OutputTarget,
                DisasmError,
            >(OutputTarget::Disassembly(p))),
            self.strings is None && self.output is None ==> r == Err::<OutputTarget, DisasmError>(
                DisasmError::MissingOutput,
            ),
    {
        match &self.strings {
            Some(p) => Ok(OutputTarget::Strings(p.clone())),
            None => match &self.output {
                Some(p) => Ok(OutputTarget::Disassembly(p.clone())),
                None => Err(DisasmError::MissingOutput),
            },
        }
    }
}

} // verus!
