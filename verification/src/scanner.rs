//! The printable-string scanner: finds maximal runs of printable, tab,
//! newline or carriage-return bytes of at least a minimum length and hands
//! them back as text, in the order the runs appear.

use vstd::prelude::*;

use crate::text::chars_to_string;

verus! {

/// A byte that may belong to an extracted string: tab, newline, carriage
/// return, or printable ASCII.
pub open spec fn is_string_byte(b: u8) -> bool {
    b == 9 || b == 10 || b == 13 || (32 <= b && b <= 126)
}

/// A finished run qualifies when it reaches the minimum length; shorter runs
/// are dropped. Every byte a run accumulates is ASCII, so decoding a
/// qualifying run as text never fails and yields one character per byte.
pub open spec fn close_run(cur: Seq<char>, min: nat) -> Seq<Seq<char>> {
    if cur.len() >= min {
        seq![cur]
    } else {
        Seq::empty()
    }
}

/// The strings found in `data` when the scan has already accumulated the run
/// `cur`: string bytes extend the run, any other byte closes it.
pub open spec fn scan_runs(data: Seq<u8>, cur: Seq<char>, min: nat) -> Seq<Seq<char>>
    decreases data.len(),
{
    if data.len() == 0 {
        close_run(cur, min)
    } else if is_string_byte(data[0]) {
        scan_runs(data.drop_first(), cur.push(data[0] as char), min)
    } else {
        close_run(cur, min) + scan_runs(data.drop_first(), Seq::empty(), min)
    }
}

/// The strings extracted from `data`: the maximal runs of string bytes of
/// length at least `min`, each decoded to text, in order of occurrence.
pub open spec fn extracted_strings(data: Seq<u8>, min: nat) -> Seq<Seq<char>> {
    scan_runs(data, Seq::empty(), min)
}

/// The views of a sequence of strings.
pub open spec fn string_views(s: Seq<String>) -> Seq<Seq<char>> {
    s.map_values(|x: String| x@)
}

/// Scans `data` once, left to right, and returns every maximal run of
/// printable/tab/newline/carriage-return bytes of length at least `min_len`,
/// decoded to text, in order of occurrence.
pub fn extract_strings(data: &Vec<u8>, min_len: usize) -> (r: Vec<String>)
    ensures
        string_views(r@) == extracted_strings(data@, min_len as nat),
{
    let ghost min: nat = min_len as nat;
    let mut out: Vec<String> = Vec::new();
    let mut cur: Vec<char> = Vec::new();
    let mut i: usize = 0;
    proof {
        assert(string_views(Seq::empty()) =~= Seq::<Seq<char>>::empty());
        assert(data@.skip(0) =~= data@);
    }
    while i < data.len()
        invariant
            i <= data.len(),
            min == min_len as nat,
            extracted_strings(data@, min) == string_views(out@) + scan_runs(
                data@.skip(i as int),
                cur@,
                min,
            ),
        decreases data.len() - i,
    {
        let b = data[i];
        let ghost pre_cur = cur@;
        let ghost pre_out = out@;
        let ghost rest = data@.skip(i as int);
        proof {
            assert(rest[0] == data@[i as int]);
            assert(rest.drop_first() =~= data@.skip(i + 1 as int));
        }
        if b == 9 || b == 10 || b == 13 || (32 <= b && b <= 126) {
            cur.push(b as char);
            proof {
                assert(scan_runs(rest, pre_cur, min) == scan_runs(rest.drop_first(), cur@, min));
            }
        } else {
            let ghost tail = scan_runs(rest.drop_first(), Seq::empty(), min);
            proof {
                assert(scan_runs(rest, pre_cur, min) == close_run(pre_cur, min) + tail);
            }
            if cur.len() >= min_len {
                let s = chars_to_string(&cur);
                out.push(s);
                proof {
                    assert(out@ == pre_out.push(s));
                    assert(string_views(pre_out) + (close_run(pre_cur, min) + tail) =~~= string_views(
                        out@,
                    ) + tail);
                }
            } else {
                proof {
                    assert(string_views(pre_out) + (close_run(pre_cur, min) + tail) =~~= string_views(
                        out@,
                    ) + tail);
                }
            }
            cur = Vec::new();
        }
        i += 1;
    }
    proof {
        assert(data@.skip(data@.len() as int) =~= Seq::<u8>::empty());
    }
    let ghost pre_out = out@;
    if cur.len() >= min_len {
        let s = chars_to_string(&cur);
        out.push(s);
        proof {
            assert(out@ == pre_out.push(s));
            assert(string_views(pre_out) + close_run(cur@, min) =~~= string_views(out@));
        }
    } else {
        proof {
            assert(string_views(pre_out) + close_run(cur@, min) =~~= string_views(out@));
        }
    }
    out
}

/// A character that a string byte decodes to: tab, newline, carriage return,
/// or printable ASCII.
pub open spec fn is_string_char(c: char) -> bool {
    c as u32 == 9 || c as u32 == 10 || c as u32 == 13 || (32 <= c as u32 && c as u32 <= 126)
}

/// Every extracted string has at least the minimum length, and every one of
/// its characters comes from a string byte: tab, newline, carriage return or
/// printable ASCII.
pub proof fn lemma_extracted_strings_are_runs(data: Seq<u8>, min: nat)
    ensures
        forall|i: int|
            0 <= i < extracted_strings(data, min).len() ==> {
                &&& #[trigger] extracted_strings(data, min)[i].len() >= min
                &&& forall|j: int|
                    0 <= j < extracted_strings(data, min)[i].len() ==> is_string_char(
                        #[trigger] extracted_strings(data, min)[i][j],
                    )
            },
{
    lemma_scan_runs_are_runs(data, Seq::empty(), min);
}

/// The generalisation over a partly accumulated run: if every character of
/// `cur` comes from a string byte, the same holds of every string the scan
/// returns, and each returned string has at least the minimum length.
proof fn lemma_scan_runs_are_runs(data: Seq<u8>, cur: Seq<char>, min: nat)
    requires
        forall|j: int| 0 <= j < cur.len() ==> is_string_char(#[trigger] cur[j]),
    ensures
        forall|i: int|
            0 <= i < scan_runs(data, cur, min).len() ==> {
                &&& #[trigger] scan_runs(data, cur, min)[i].len() >= min
                &&& forall|j: int|
                    0 <= j < scan_runs(data, cur, min)[i].len() ==> is_string_char(
                        #[trigger] scan_runs(data, cur, min)[i][j],
                    )
            },
    decreases data.len(),
{
    if data.len() == 0 {
    } else if is_string_byte(data[0]) {
        let c = data[0] as char;
        assert(c as u32 == data[0] as u32);
        let ext = cur.push(c);
        assert forall|j: int| 0 <= j < ext.len() implies is_string_char(#[trigger] ext[j]) by {
            if j < cur.len() {
                assert(ext[j] == cur[j]);
            } else {
                assert(ext[j] == c);
            }
        }
        lemma_scan_runs_are_runs(data.drop_first(), ext, min);
        assert(scan_runs(data, cur, min) == scan_runs(data.drop_first(), ext, min));
    } else {
        lemma_scan_runs_are_runs(data.drop_first(), Seq::empty(), min);
        let head = close_run(cur, min);
        let tail = scan_runs(data.drop_first(), Seq::empty(), min);
        assert(scan_runs(data, cur, min) == head + tail);
        assert forall|i: int| 0 <= i < (head + tail).len() implies {
            &&& #[trigger] (head + tail)[i].len() >= min
            &&& forall|j: int|
                0 <= j < (head + tail)[i].len() ==> is_string_char(#[trigger] (head + tail)[i][j])
        } by {
            if i < head.len() {
                assert((head + tail)[i] == cur);
            } else {
                assert((head + tail)[i] == tail[i - head.len()]);
            }
        }
    }
}

/// A byte sequence shorter than the minimum length, whatever it holds, yields
/// no string at all.
pub proof fn lemma_short_input_yields_nothing(data: Seq<u8>, min: nat)
    requires
        data.len() < min,
    ensures
        extracted_strings(data, min) == Seq::<Seq<char>>::empty(),
{
    lemma_scan_short(data, Seq::empty(), min);
}

/// The generalisation: when the remaining bytes and the accumulated run
/// together stay under the minimum length, nothing further is returned.
proof fn lemma_scan_short(data: Seq<u8>, cur: Seq<char>, min: nat)
    requires
        data.len() + cur.len() < min,
    ensures
        scan_runs(data, cur, min) == Seq::<Seq<char>>::empty(),
    decreases data.len(),
{
    if data.len() == 0 {
    } else if is_string_byte(data[0]) {
        lemma_scan_short(data.drop_first(), cur.push(data[0] as char), min);
    } else {
        lemma_scan_short(data.drop_first(), Seq::empty(), min);
        assert(close_run(cur, min) + scan_runs(data.drop_first(), Seq::empty(), min)
            =~= Seq::<Seq<char>>::empty());
    }
}

} // verus!
