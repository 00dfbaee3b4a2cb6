//! The report formatter and the run's two pipelines: the disassembly report
//! over a structured object's code section or over a flat binary image, and
//! the string-extraction report.

use vstd::prelude::*;

use crate::config::Architecture;
use crate::config::DisasmError;
use crate::config::FLAT_BASE_ADDRESS;
use crate::decode::Decoder;
use crate::decode::Insn;
use crate::decode::arch_tag;
use crate::decode::decoded_insns;
use crate::decode::insn_view;
use crate::decode::insn_views;
use crate::loader::Section;
use crate::loader::has_code_section;
use crate::loader::is_code_section;
use crate::loader::parse_object;
use crate::loader::parsed_sections;
use crate::loader::select_code_section;
use crate::scanner::extract_strings;
use crate::scanner::extracted_strings;
use crate::scanner::string_views;
use crate::text::append_str;
use crate::text::chars_to_string;
use crate::text::dec_str;
use crate::text::hex_pad8;
use crate::text::hex_str;
use crate::text::pad_to8;
use crate::text::push_dec;
use crate::text::push_hex;
use crate::text::push_hex8;
use crate::text::push_padded8;

verus! {

/// One report line for a decoded instruction: the address in eight-digit
/// lowercase hexadecimal, a colon, a tab, the mnemonic left-aligned in an
/// eight-character field, a tab, the operand text, and a newline.
pub open spec fn insn_line(v: (u64, Seq<char>, Seq<char>)) -> Seq<char> {
    hex_pad8(v.0 as nat) + ":\t"@ + pad_to8(v.1) + "\t"@ + v.2 + "\n"@
}

/// The report lines of a sequence of decoded instructions: one line per
/// instruction, in the decoder's order, with nothing added between them.
pub open spec fn insn_lines(s: Seq<(u64, Seq<char>, Seq<char>)>) -> Seq<char>
    decreases s.len(),
{
    if s.len() == 0 {
        Seq::empty()
    } else {
        insn_lines(s.drop_last()) + insn_line(s.last())
    }
}

/// The formatter introduces no gaps and keeps the decoder's order: the lines
/// of two instruction sequences one after the other are the lines of the
/// first followed by the lines of the second, so every instruction's line
/// stands in the report at its decoded position, with nothing in between.
pub proof fn lemma_insn_lines_concat(a: Seq<(u64, Seq<char>, Seq<char>)>, b: Seq<
    (u64, Seq<char>, Seq<char>),
>)
    ensures
        insn_lines(a + b) == insn_lines(a) + insn_lines(b),
    decreases b.len(),
{
    if b.len() == 0 {
        assert(a + b =~= a);
        assert(insn_lines(a) + insn_lines(b) =~= insn_lines(a));
    } else {
        lemma_insn_lines_concat(a, b.drop_last());
        assert((a + b).drop_last() =~= a + b.drop_last());
        assert((a + b).last() == b.last());
        assert(insn_lines(a) + insn_lines(b) =~= insn_lines(a) + insn_lines(b.drop_last())
            + insn_line(b.last()));
    }
}

/// The header block over a code section: its label, its declared size in
/// decimal, and its declared address in lowercase `0x`-prefixed hexadecimal,
/// followed by a blank line.
pub open spec fn section_header(size: u64, address: u64) -> Seq<char> {
    "Disassembly of section .text:\n  Size: "@ + dec_str(size as nat) + "\n  Address: 0x"@
        + hex_str(address as nat) + "\n\n"@
}

/// Appends one line per decoded instruction to `out`.
fn append_insn_lines(out: &mut Vec<char>, insns: &Vec<Insn>)
    ensures
        final(out)@ == old(out)@ + insn_lines(insn_views(insns@)),
{
    let ghost base = out@;
    let ghost views = insn_views(insns@);
    let mut i: usize = 0;
    proof {
        assert(views.take(0) =~= Seq::<(u64, Seq<char>, Seq<char>)>::empty());
        assert(base + insn_lines(views.take(0)) =~= base);
    }
    while i < insns.len()
        invariant
            views == insn_views(insns@),
            i <= insns.len(),
            out@ == base + insn_lines(views.take(i as int)),
        decreases insns.len() - i,
    {
        let insn = &insns[i];
        push_hex8(out, insn.address);
        append_str(out, ":\t");
        push_padded8(out, &insn.mnemonic);
        append_str(out, "\t");
        append_str(out, insn.operands.as_str());
        append_str(out, "\n");
        proof {
            assert(views.take(i + 1 as int).drop_last() =~= views.take(i as int));
            assert(views.take(i + 1 as int).last() == views[i as int]);
            assert(views[i as int] == insn_view(insns@[i as int]));
            assert(out@ =~= base + insn_lines(views.take(i + 1 as int)));
        }
        i += 1;
    }
    proof {
        assert(views.take(insns@.len() as int) =~= views);
    }
}

/// Appends the section header block to `out`.
fn append_section_header(out: &mut Vec<char>, size: u64, address: u64)
    ensures
        final(out)@ == old(out)@ + section_header(size, address),
{
    append_str(out, "Disassembly of section .text:\n  Size: ");
    push_dec(out, size);
    append_str(out, "\n  Address: 0x");
    push_hex(out, address);
    append_str(out, "\n\n");
    proof {
        assert(out@ =~= old(out)@ + section_header(size, address));
    }
}

/// Disassembles a flat binary image: every instruction decoded from the whole
/// buffer, the first at the fixed flat-binary base address, one report line
/// per instruction and no header block.
pub fn disassemble_flat(arch: Architecture, data: &Vec<u8>) -> (r: Result<String, DisasmError>)
    ensures
        r matches Ok(s) ==> s@ == insn_lines(
            decoded_insns(arch_tag(arch), data@, FLAT_BASE_ADDRESS),
        ),
        r matches Err(e) ==> (e matches DisasmError::DecoderBuild(_) || e
            matches DisasmError::DecodeFailed(_)),
{
    let decoder = match Decoder::new(arch) {
        Ok(d) => d,
        Err(e) => {
            return Err(e);
        },
    };
    match decoder.decode(data, FLAT_BASE_ADDRESS) {
        Ok(insns) => {
            let mut out: Vec<char> = Vec::new();
            append_insn_lines(&mut out, &insns);
            proof {
                assert(Seq::<char>::empty() + insn_lines(insn_views(insns@)) =~= insn_lines(
                    insn_views(insns@),
                ));
            }
            Ok(chars_to_string(&out))
        },
        Err(m) => Err(DisasmError::DecodeFailed(m)),
    }
}

/// The disassembly report over a structured object's sections: the report of
/// the first code section — header block, then one line per instruction
/// decoded from its data at its declared address — or the empty report when
/// no section qualifies.
pub open spec fn sections_report(tag: int, sections: Seq<Section>) -> Seq<char>
    decreases sections.len(),
{
    if sections.len() == 0 {
        Seq::empty()
    } else if is_code_section(sections[0]) {
        let s = sections[0];
        section_header(s.size, s.address) + insn_lines(
            decoded_insns(tag, s.data->Some_0@, s.address),
        )
    } else {
        sections_report(tag, sections.drop_first())
    }
}

/// Skipping sections that are no code section does not change the report.
proof fn lemma_sections_report_skip(tag: int, sections: Seq<Section>, i: int)
    requires
        0 <= i <= sections.len(),
        forall|j: int| 0 <= j < i ==> !is_code_section(#[trigger] sections[j]),
    ensures
        sections_report(tag, sections) == sections_report(tag, sections.skip(i)),
    decreases i,
{
    if i > 0 {
        lemma_sections_report_skip(tag, sections, i - 1);
        let rest = sections.skip(i - 1);
        assert(rest[0] == sections[i - 1]);
        assert(rest.drop_first() =~= sections.skip(i));
    } else {
        assert(sections.skip(0) =~= sections);
    }
}

/// When a structured object holds a code section, the report opens with the
/// header block built from that very section's declared size and declared
/// address, followed by the lines of the instructions decoded from its data
/// at that address: the header fields match the declaration exactly.
pub proof fn lemma_report_header_matches_declaration(tag: int, sections: Seq<Section>, i: int)
    requires
        0 <= i < sections.len(),
        is_code_section(sections[i]),
        forall|j: int| 0 <= j < i ==> !is_code_section(#[trigger] sections[j]),
    ensures
        sections_report(tag, sections) == section_header(sections[i].size, sections[i].address)
            + insn_lines(decoded_insns(tag, sections[i].data->Some_0@, sections[i].address)),
{
    lemma_sections_report_skip(tag, sections, i);
    assert(sections.skip(i)[0] == sections[i]);
}

/// Disassembles the first qualifying code section of a structured object:
/// header block, then one line per instruction decoded from the section's
/// data at its declared address; the empty report when no section qualifies.
pub fn disassemble_sections(arch: Architecture, sections: &Vec<Section>) -> (r: Result<
    String,
    DisasmError,
>)
    ensures
        r matches Ok(s) ==> s@ == sections_report(arch_tag(arch), sections@),
        !has_code_section(sections@) ==> (r matches Ok(s) && s@ == Seq::<char>::empty()),
        r matches Err(e) ==> (e matches DisasmError::DecoderBuild(_) || e
            matches DisasmError::DecodeFailed(_)),
{
    match select_code_section(sections) {
        Some(i) => {
            proof {
                lemma_sections_report_skip(arch_tag(arch), sections@, i as int);
                assert(sections@.skip(i as int)[0] == sections@[i as int]);
            }
            let sec = &sections[i];
            let decoder = match Decoder::new(arch) {
                Ok(d) => d,
                Err(e) => {
                    return Err(e);
                },
            };
            match &sec.data {
                Some(sec_data) => {
                    match decoder.decode(sec_data, sec.address) {
                        Ok(insns) => {
                            let mut out: Vec<char> = Vec::new();
                            append_section_header(&mut out, sec.size, sec.address);
                            append_insn_lines(&mut out, &insns);
                            proof {
                                assert(out@ =~= sections_report(arch_tag(arch), sections@));
                            }
                            Ok(chars_to_string(&out))
                        },
                        Err(m) => Err(DisasmError::DecodeFailed(m)),
                    }
                },
                None => {
                    proof {
                        assert(false);
                    }
                    Err(DisasmError::MissingOutput)
                },
            }
        },
        None => {
            proof {
                lemma_sections_report_skip(arch_tag(arch), sections@, sections@.len() as int);
                assert(sections@.skip(sections@.len() as int) =~= Seq::<Section>::empty());
            }
            Ok(String::new())
        },
    }
}

/// The one disassembly text the input bytes call for: the report of the
/// parsed object's sections when the external parser recognises one, else the
/// flat-binary fallback — every instruction decoded from the whole buffer at
/// the fixed base address, with no header block.
pub open spec fn disassembly_text(tag: int, data: Seq<u8>) -> Seq<char> {
    match parsed_sections(data) {
        Some(sections) => sections_report(tag, sections),
        None => insn_lines(decoded_insns(tag, data, FLAT_BASE_ADDRESS)),
    }
}

/// The disassembly report for raw input bytes: when the external parser
/// recognises a structured object, the report of its sections; otherwise the
/// flat-binary fallback, decoded at the fixed base address with no header
/// block. A recognised object without a qualifying code section is owed the
/// empty report, not an error.
pub fn disassembly_report(arch: Architecture, data: &Vec<u8>) -> (r: Result<String, DisasmError>)
    ensures
        r matches Ok(s) ==> s@ == disassembly_text(arch_tag(arch), data@),
        (parsed_sections(data@) matches Some(sections) && !has_code_section(sections)) ==> r
            is Ok,
        r matches Err(e) ==> (e matches DisasmError::DecoderBuild(_) || e
            matches DisasmError::DecodeFailed(_)),
{
    match parse_object(data) {
        Some(sections) => disassemble_sections(arch, &sections),
        None => disassemble_flat(arch, data),
    }
}

/// The extracted strings joined by single newlines: no trailing newline, no
/// header, no per-string metadata; empty when nothing was extracted.
pub open spec fn joined(items: Seq<Seq<char>>) -> Seq<char>
    decreases items.len(),
{
    if items.len() == 0 {
        Seq::empty()
    } else if items.len() == 1 {
        items[0]
    } else {
        joined(items.drop_last()) + "\n"@ + items.last()
    }
}

/// The string-extraction report: every maximal printable run of at least
/// `min_len` bytes, in order of occurrence, joined by newlines.
pub fn strings_report(data: &Vec<u8>, min_len: usize) -> (r: String)
    ensures
        r@ == joined(extracted_strings(data@, min_len as nat)),
{
    let items = extract_strings(data, min_len);
    let ghost views = string_views(items@);
    let mut out: Vec<char> = Vec::new();
    let mut i: usize = 0;
    proof {
        assert(views.take(0) =~= Seq::<Seq<char>>::empty());
    }
    while i < items.len()
        invariant
            views == string_views(items@),
            i <= items.len(),
            out@ == joined(views.take(i as int)),
        decreases items.len() - i,
    {
        let ghost pre = out@;
        if i > 0 {
            append_str(&mut out, "\n");
        }
        append_str(&mut out, items[i].as_str());
        proof {
            assert(views[i as int] == items@[i as int]@);
            assert(views.take(i + 1 as int).drop_last() =~= views.take(i as int));
            assert(views.take(i + 1 as int).last() == views[i as int]);
            if i == 0 {
                assert(out@ =~= joined(views.take(1)));
            } else {
                assert(out@ =~= joined(views.take(i + 1 as int)));
            }
        }
        i += 1;
    }
    proof {
        assert(views.take(items@.len() as int) =~= views);
    }
    chars_to_string(&out)
}

} // verus!
