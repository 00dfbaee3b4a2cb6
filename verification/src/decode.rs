//! The decoder adapter: a thin layer over the external disassembly engine.
//! Construction picks one of four fixed configurations; decoding hands every
//! instruction back as plain values (address, mnemonic, operand text).

use vstd::prelude::*;

use crate::config::Architecture;
use crate::config::DisasmError;
use capstone::arch::BuildsCapstone;

verus! {

/// The external decoder's engine type, opaque to this crate.
#[verifier::external_type_specification]
#[verifier::external_body]
pub struct ExCapstone(capstone::Capstone);

/// One decoded instruction: its address, its mnemonic and its operand text.
pub struct Insn {
    /// The instruction's address.
    pub address: u64,
    /// The mnemonic token; empty when the decoder reports none.
    pub mnemonic: String,
    /// The operand text; empty when the decoder reports none.
    pub operands: String,
}

/// The plain value of one decoded instruction.
pub open spec fn insn_view(i: Insn) -> (u64, Seq<char>, Seq<char>) {
    (i.address, i.mnemonic@, i.operands@)
}

/// The plain values of a sequence of decoded instructions.
pub open spec fn insn_views(s: Seq<Insn>) -> Seq<(u64, Seq<char>, Seq<char>)> {
    s.map_values(|i: Insn| insn_view(i))
}

/// A tag distinguishing the four decoder configurations.
pub open spec fn arch_tag(a: Architecture) -> int {
    match a {
        Architecture::X86 => 0,
        Architecture::ARM => 1,
        Architecture::MIPS => 2,
        Architecture::RISCV => 3,
    }
}

/// What the external decoder returns for a buffer: the instructions decoded
/// one after the other from `data`, the first at address `base`, under the
/// configuration `tag` names. It is a function of these three values alone.
pub uninterp spec fn decoded_insns(tag: int, data: Seq<u8>, base: u64) -> Seq<
    (u64, Seq<char>, Seq<char>),
>;

/// Decoder construction for x86, 64-bit mode. Relies on
/// `capstone::Capstone::new().x86().mode(Mode64).build()`; the error case
/// carries capstone's own message.
#[verifier::external_body]
fn build_x86() -> (r: Result<capstone::Capstone, String>) {
    match capstone::Capstone::new().x86().mode(capstone::arch::x86::ArchMode::Mode64).build() {
        Ok(c) => Ok(c),
        Err(e) => Err(e.to_string()),
    }
}

/// Decoder construction for ARM, standard (non-Thumb) mode. Relies on
/// `capstone::Capstone::new().arm().mode(Arm).build()`; the error case
/// carries capstone's own message.
#[verifier::external_body]
fn build_arm() -> (r: Result<capstone::Capstone, String>) {
    match capstone::Capstone::new().arm().mode(capstone::arch::arm::ArchMode::Arm).build() {
        Ok(c) => Ok(c),
        Err(e) => Err(e.to_string()),
    }
}

/// Decoder construction for MIPS, 32-bit mode. Relies on
/// `capstone::Capstone::new().mips().mode(Mips32).build()`; the error case
/// carries capstone's own message.
#[verifier::external_body]
fn build_mips() -> (r: Result<capstone::Capstone, String>) {
    match capstone::Capstone::new().mips().mode(capstone::arch::mips::ArchMode::Mips32).build() {
        Ok(c) => Ok(c),
        Err(e) => Err(e.to_string()),
    }
}

/// Decoder construction for RISC-V, 64-bit mode. Relies on
/// `capstone::Capstone::new().riscv().mode(RiscV64).build()`; the error case
/// carries capstone's own message.
#[verifier::external_body]
fn build_riscv() -> (r: Result<capstone::Capstone, String>) {
    match capstone::Capstone::new().riscv().mode(capstone::arch::riscv::ArchMode::RiscV64).build() {
        Ok(c) => Ok(c),
        Err(e) => Err(e.to_string()),
    }
}

/// The decoder adapter: the engine paired with the selection it was built
/// for. The fields stay private so that the pairing cannot be broken.
pub struct Decoder {
    cs: capstone::Capstone,
    sel: Architecture,
}

impl Decoder {
    /// The selection this decoder was built for.
    pub closed spec fn selection(self) -> Architecture {
        self.sel
    }

    /// Builds the decoder for the given selection. Construction is fallible;
    /// a failure carries the engine's message.
    pub fn new(sel: Architecture) -> (r: Result<Decoder, DisasmError>)
        ensures
            r matches Ok(d) ==> d.selection() == sel,
            r matches Err(e) ==> e matches DisasmError::DecoderBuild(_),
    {
        let built = match sel {
            Architecture::X86 => build_x86(),
            Architecture::ARM => build_arm(),
            Architecture::MIPS => build_mips(),
            Architecture::RISCV => build_riscv(),
        };
        match built {
            Ok(cs) => Ok(Decoder { cs, sel }),
            Err(m) => Err(DisasmError::DecoderBuild(m)),
        }
    }

    /// Decodes every instruction in `data`, the first at address `base`.
    /// Relies on `capstone::Capstone::disasm_all`: decoding all instructions
    /// in a buffer is a function of the configured architecture and mode, the
    /// bytes and the base address alone; the instructions come back in
    /// decoding order, and a missing mnemonic or operand text comes back as
    /// the empty string. The error case carries capstone's own message.
    #[verifier::external_body]
    pub(crate) fn decode(&self, data: &Vec<u8>, base: u64) -> (r: Result<Vec<Insn>, String>)
        ensures
            r matches Ok(v) ==> insn_views(v@) == decoded_insns(
                arch_tag(self.selection()),
                data@,
                base,
            ),
    {
        match self.cs.disasm_all(data.as_slice(), base) {
            Ok(list) => Ok(
                list.iter().map(
                    |i| Insn {
                        address: i.address(),
                        mnemonic: i.mnemonic().unwrap_or("").to_string(),
                        operands: i.op_str().unwrap_or("").to_string(),
                    },
                ).collect(),
            ),
            Err(e) => Err(e.to_string()),
        }
    }
}

} // verus!
