use chdisassemble::config::Architecture;
use chdisassemble::loader::parse_object;
use chdisassemble::loader::select_code_section;
use chdisassemble::loader::Section;
use chdisassemble::report::disassemble_flat;
use chdisassemble::report::disassemble_sections;
use chdisassemble::report::disassembly_report;

fn push_u16(out: &mut Vec<u8>, v: u16) {
    out.extend_from_slice(&v.to_le_bytes());
}

fn push_u32(out: &mut Vec<u8>, v: u32) {
    out.extend_from_slice(&v.to_le_bytes());
}

fn push_u64(out: &mut Vec<u8>, v: u64) {
    out.extend_from_slice(&v.to_le_bytes());
}

/// A minimal 64-bit little-endian ELF with three sections: the null section,
/// a one-byte section with the given five-character name holding `ret` at
/// address 0x400000, and `.shstrtab`.
fn minimal_elf_named(name: &[u8; 5]) -> Vec<u8> {
    let mut out: Vec<u8> = Vec::new();
    // ELF header.
    out.extend_from_slice(&[0x7f, b'E', b'L', b'F', 2, 1, 1, 0, 0, 0, 0, 0, 0, 0, 0, 0]);
    push_u16(&mut out, 2); // e_type: executable
    push_u16(&mut out, 0x3e); // e_machine: x86-64
    push_u32(&mut out, 1); // e_version
    push_u64(&mut out, 0); // e_entry
    push_u64(&mut out, 0); // e_phoff
    push_u64(&mut out, 0x58); // e_shoff
    push_u32(&mut out, 0); // e_flags
    push_u16(&mut out, 64); // e_ehsize
    push_u16(&mut out, 0); // e_phentsize
    push_u16(&mut out, 0); // e_phnum
    push_u16(&mut out, 64); // e_shentsize
    push_u16(&mut out, 3); // e_shnum
    push_u16(&mut out, 2); // e_shstrndx
    assert_eq!(out.len(), 0x40);
    // .text data at 0x40: a single `ret`.
    out.push(0xc3);
    // .shstrtab data at 0x41: a null byte, the section name, ".shstrtab".
    out.push(0);
    out.extend_from_slice(name);
    out.push(0);
    out.extend_from_slice(b".shstrtab\0");
    assert_eq!(out.len(), 0x52);
    while out.len() < 0x58 {
        out.push(0);
    }
    // Section header 0: all zeros.
    out.extend_from_slice(&[0u8; 64]);
    // Section header 1: .text
    push_u32(&mut out, 1); // sh_name: the given name
    push_u32(&mut out, 1); // sh_type: PROGBITS
    push_u64(&mut out, 6); // sh_flags: ALLOC | EXECINSTR
    push_u64(&mut out, 0x400000); // sh_addr
    push_u64(&mut out, 0x40); // sh_offset
    push_u64(&mut out, 1); // sh_size
    push_u32(&mut out, 0); // sh_link
    push_u32(&mut out, 0); // sh_info
    push_u64(&mut out, 1); // sh_addralign
    push_u64(&mut out, 0); // sh_entsize
    // Section header 2: .shstrtab
    push_u32(&mut out, 7); // sh_name: ".shstrtab"
    push_u32(&mut out, 3); // sh_type: STRTAB
    push_u64(&mut out, 0); // sh_flags
    push_u64(&mut out, 0); // sh_addr
    push_u64(&mut out, 0x41); // sh_offset
    push_u64(&mut out, 17); // sh_size
    push_u32(&mut out, 0); // sh_link
    push_u32(&mut out, 0); // sh_info
    push_u64(&mut out, 1); // sh_addralign
    push_u64(&mut out, 0); // sh_entsize
    out
}

fn minimal_elf() -> Vec<u8> {
    minimal_elf_named(b".text")
}

fn text_section(data: Vec<u8>, address: u64, size: u64) -> Section {
    Section {
        name: Some(".text".to_string()),
        address,
        size,
        data: Some(data),
    }
}

#[test]
fn flat_ret_gives_one_line_at_the_sentinel_base() {
    let data: Vec<u8> = vec![0xc3];
    let report = disassembly_report(Architecture::X86, &data).unwrap();
    assert_eq!(report, "00001000:\tret     \t\n");
}

#[test]
fn fallback_report_has_no_header_block() {
    let data: Vec<u8> = vec![0x55, 0xc3];
    let report = disassembly_report(Architecture::X86, &data).unwrap();
    assert!(!report.contains("Disassembly of section"));
    assert!(report.starts_with("00001000:"));
}

#[test]
fn flat_addresses_are_increasing_and_contiguous() {
    // Three one-byte instructions: nop, nop, ret.
    let data: Vec<u8> = vec![0x90, 0x90, 0xc3];
    let report = disassemble_flat(Architecture::X86, &data).unwrap();
    let lines: Vec<&str> = report.lines().collect();
    assert_eq!(lines.len(), 3);
    assert!(lines[0].starts_with("00001000:"));
    assert!(lines[1].starts_with("00001001:"));
    assert!(lines[2].starts_with("00001002:"));
}

#[test]
fn operand_text_follows_the_mnemonic_field() {
    // push rbp
    let data: Vec<u8> = vec![0x55];
    let report = disassemble_flat(Architecture::X86, &data).unwrap();
    assert_eq!(report, "00001000:\tpush    \trbp\n");
}

#[test]
fn trailing_incomplete_instruction_is_not_emitted() {
    // `ret`, then a lone REX prefix that forms no complete instruction.
    let data: Vec<u8> = vec![0xc3, 0x48];
    let report = disassemble_flat(Architecture::X86, &data).unwrap();
    assert_eq!(report, "00001000:\tret     \t\n");
}

#[test]
fn empty_input_gives_an_empty_flat_report() {
    let data: Vec<u8> = Vec::new();
    let report = disassemble_flat(Architecture::X86, &data).unwrap();
    assert_eq!(report, "");
}

#[test]
fn arm_decoder_configuration_is_used() {
    // bx lr, little-endian ARM.
    let data: Vec<u8> = vec![0x1e, 0xff, 0x2f, 0xe1];
    let report = disassemble_flat(Architecture::ARM, &data).unwrap();
    assert_eq!(report, "00001000:\tbx      \tlr\n");
}

#[test]
fn mips_and_riscv_decoders_build() {
    // jr ra (MIPS32 big... little-endian encoding) and ret (RISC-V compressed).
    let mips: Vec<u8> = vec![0x08, 0x00, 0xe0, 0x03];
    let report = disassemble_flat(Architecture::MIPS, &mips).unwrap();
    assert!(report.starts_with("00001000:"));
    let riscv: Vec<u8> = vec![0x67, 0x80, 0x00, 0x00];
    let report = disassemble_flat(Architecture::RISCV, &riscv).unwrap();
    assert!(report.starts_with("00001000:"));
}

#[test]
fn section_report_header_uses_declared_size_and_address() {
    let sections = vec![text_section(vec![0xc3], 0x400000, 7)];
    let report = disassemble_sections(Architecture::X86, &sections).unwrap();
    assert_eq!(
        report,
        "Disassembly of section .text:\n  Size: 7\n  Address: 0x400000\n\n00400000:\tret     \t\n"
    );
}

#[test]
fn sections_without_code_give_an_empty_report() {
    let sections = vec![Section {
        name: Some(".data".to_string()),
        address: 0x1000,
        size: 4,
        data: Some(vec![1, 2, 3, 4]),
    }];
    let report = disassemble_sections(Architecture::X86, &sections).unwrap();
    assert_eq!(report, "");
}

#[test]
fn empty_or_missing_section_data_is_skipped() {
    let sections = vec![
        Section {
            name: Some(".text".to_string()),
            address: 0x1000,
            size: 0,
            data: Some(Vec::new()),
        },
        Section {
            name: Some(".text".to_string()),
            address: 0x2000,
            size: 0,
            data: None,
        },
        text_section(vec![0xc3], 0x3000, 1),
    ];
    assert_eq!(select_code_section(&sections), Some(2));
    let report = disassemble_sections(Architecture::X86, &sections).unwrap();
    assert_eq!(
        report,
        "Disassembly of section .text:\n  Size: 1\n  Address: 0x3000\n\n00003000:\tret     \t\n"
    );
}

#[test]
fn first_matching_section_wins() {
    let sections = vec![
        text_section(vec![0xc3], 0x1000, 1),
        text_section(vec![0x90], 0x2000, 1),
    ];
    assert_eq!(select_code_section(&sections), Some(0));
}

#[test]
fn unnamed_sections_are_skipped() {
    let sections = vec![
        Section {
            name: None,
            address: 0,
            size: 0,
            data: Some(vec![0xc3]),
        },
        text_section(vec![0x90], 0x2000, 1),
    ];
    assert_eq!(select_code_section(&sections), Some(1));
}

#[test]
fn structured_object_is_parsed_into_sections() {
    let elf = minimal_elf();
    let sections = parse_object(&elf).expect("the minimal ELF must parse");
    // The parser hands out the declared sections after the ELF null entry.
    assert_eq!(sections.len(), 2);
    assert_eq!(sections[0].name.as_deref(), Some(".text"));
    assert_eq!(sections[0].address, 0x400000);
    assert_eq!(sections[0].size, 1);
    assert_eq!(sections[0].data.as_deref(), Some(&[0xc3][..]));
}

#[test]
fn object_without_code_section_gives_an_empty_report() {
    let elf = minimal_elf_named(b".data");
    assert!(parse_object(&elf).is_some());
    let report = disassembly_report(Architecture::X86, &elf).unwrap();
    assert_eq!(report, "");
}

#[test]
fn garbage_is_not_an_object() {
    let data: Vec<u8> = vec![0xc3];
    assert!(parse_object(&data).is_none());
}

#[test]
fn object_input_gets_the_header_and_declared_base() {
    let elf = minimal_elf();
    let report = disassembly_report(Architecture::X86, &elf).unwrap();
    assert_eq!(
        report,
        "Disassembly of section .text:\n  Size: 1\n  Address: 0x400000\n\n00400000:\tret     \t\n"
    );
}
