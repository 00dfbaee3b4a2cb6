//! The object loader and section selector: raw bytes are either recognised as
//! a structured object file, whose sections come back as plain values in
//! declared order, or the whole image falls back to flat-binary handling.

use vstd::prelude::*;

use object::Object;
use object::ObjectSection;

verus! {

/// One section of a structured object file, as plain values: its name (when
/// it has a well-formed one), its declared address and size, and its raw data
/// (when it can be retrieved).
pub struct Section {
    /// The section's name; absent when the object declares none readable.
    pub name: Option<String>,
    /// The section's declared load address.
    pub address: u64,
    /// The section's declared size.
    pub size: u64,
    /// The section's raw data; absent when it cannot be retrieved.
    pub data: Option<Vec<u8>>,
}

/// What the external format parser makes of a byte buffer: the sections of
/// the recognised structured object, as plain values in declared order, or
/// nothing when the buffer is no recognisable object. Parsing reads the bytes
/// alone, so the outcome is a function of them.
pub uninterp spec fn parsed_sections(data: Seq<u8>) -> Option<Seq<Section>>;

/// Object loading, delegated whole to the external format parser. Relies on
/// `object::File::parse` to recognise a structured object container, and on
/// the `object::ObjectSection` accessors `name`, `address`, `size` and `data`;
/// each section is handed out as plain values, in the order the object file
/// declares. A parse failure yields nothing, and never raises.
#[verifier::external_body]
pub fn parse_object(data: &Vec<u8>) -> (r: Option<Vec<Section>>)
    ensures
        r matches Some(v) ==> parsed_sections(data@) == Some(v@),
        r is None ==> parsed_sections(data@) is None,
{
    match object::File::parse(data.as_slice()) {
        Ok(file) => Some(
            file.sections().map(
                |s| Section {
                    name: s.name().ok().map(|n| n.to_string()),
                    address: s.address(),
                    size: s.size(),
                    data: s.data().ok().map(|d| d.to_vec()),
                },
            ).collect(),
        ),
        Err(_) => None,
    }
}

/// The section holding executable code: named exactly `.text`, with raw data
/// that could be retrieved and is not empty.
pub open spec fn is_code_section(s: Section) -> bool {
    &&& s.name matches Some(n) && n@ == ".text"@
    &&& s.data matches Some(d) && d@.len() > 0
}

/// Whether any section qualifies as the code section.
pub open spec fn has_code_section(sections: Seq<Section>) -> bool {
    exists|j: int| 0 <= j < sections.len() && is_code_section(sections[j])
}

/// Walks the sections in declared order and picks the first one named exactly
/// `.text` whose raw data is present and non-empty; every other section is
/// skipped. Returns its index, or nothing when no section qualifies.
pub fn select_code_section(sections: &Vec<Section>) -> (r: Option<usize>)
    ensures
        r matches Some(i) ==> {
            &&& i < sections@.len()
            &&& is_code_section(sections@[i as int])
            &&& forall|j: int| 0 <= j < i ==> !is_code_section(#[trigger] sections@[j])
        },
        r is None ==> forall|j: int|
            0 <= j < sections@.len() ==> !is_code_section(#[trigger] sections@[j]),
{
    let key: String = ".text".to_owned();
    let mut i: usize = 0;
    while i < sections.len()
        invariant
            key@ == ".text"@,
            i <= sections.len(),
            forall|j: int| 0 <= j < i ==> !is_code_section(#[trigger] sections@[j]),
        decreases sections.len() - i,
    {
        let sec = &sections[i];
        let name_matches = match &sec.name {
            Some(n) => *n == key,
            None => false,
        };
        let mut found = false;
        if name_matches {
            if let Some(d) = &sec.data {
                if d.len() > 0 {
                    found = true;
                }
            }
        }
        if found {
            return Some(i);
        }
        assert(!is_code_section(sections@[i as int]));
        i += 1;
    }
    None
}

} // verus!
