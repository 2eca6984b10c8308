use vstd::prelude::*;

use crate::buffer::{cstr_prefix, lemma_nul_index_bounds, lemma_nul_index_is};

verus! {

/// Width of one display field of a controller name: the model-number and
/// serial-number fields are both rendered at this many characters.
pub const FIELD_WIDTH: usize = 20;

/// The ASCII space used to pad a display field.
pub const PAD_BYTE: u8 = 32;

/// ASCII opening parenthesis.
pub const OPEN_PAREN: u8 = 40;

/// ASCII closing parenthesis.
pub const CLOSE_PAREN: u8 = 41;

/// Controller identification data arrives as fixed-width byte fields that are
/// not NUL-terminated; the display transform reads a field as a C string,
/// truncates it to the display width, and left-justifies it with spaces.
pub open spec fn field_display(s: Seq<u8>) -> Seq<u8> {
    let c = cstr_prefix(s);
    let t = if c.len() > FIELD_WIDTH { c.take(FIELD_WIDTH as int) } else { c };
    t + Seq::new((FIELD_WIDTH - t.len()) as nat, |i: int| PAD_BYTE)
}

/// The display name of a controller: its model-number field, then its
/// serial-number field in parentheses.
pub open spec fn controller_name(mn: Seq<u8>, sn: Seq<u8>) -> Seq<u8> {
    field_display(mn) + seq![PAD_BYTE, OPEN_PAREN] + field_display(sn) + seq![CLOSE_PAREN]
}

/// Reinterpret a signed byte field as unsigned bytes, value for value.
pub fn bytes_of_i8(v: &[i8]) -> (r: Vec<u8>)
    ensures
        r@.len() == v@.len(),
        forall|i: int| 0 <= i < v@.len() ==> r@[i] == v@[i] as u8,
{
    let mut out: Vec<u8> = Vec::new();
    let mut i: usize = 0;
    while i < v.len()
        invariant
            i <= v@.len(),
            out@.len() == i,
            forall|j: int| 0 <= j < i ==> out@[j] == v@[j] as u8,
        decreases v@.len() - i,
    {
        let b: u8 = #[verifier::truncate] (v[i] as u8);
        out.push(b);
        i = i + 1;
    }
    out
}

/// One field of the display name: the bytes of `s` before its first NUL,
/// cut to the display width and padded with spaces up to it.
fn field_bytes(s: &[u8]) -> (r: Vec<u8>)
    ensures
        r@ == field_display(s@),
{
    let mut out: Vec<u8> = Vec::new();
    let mut i: usize = 0;
    while i < FIELD_WIDTH && i < s.len() && s[i] != 0
        invariant
            i <= FIELD_WIDTH,
            i <= s@.len(),
            forall|j: int| 0 <= j < i ==> s@[j] != 0,
            out@ == s@.take(i as int),
        decreases FIELD_WIDTH - i,
    {
        let b = s[i];
        out.push(b);
        i = i + 1;
        assert(out@ =~= s@.take(i as int));
    }
    let ghost copied = i as int;
    proof {
        lemma_nul_index_bounds(s@);
        if i < FIELD_WIDTH {
            lemma_nul_index_is(s@, copied);
        }
        let c = cstr_prefix(s@);
        let t = if c.len() > FIELD_WIDTH { c.take(FIELD_WIDTH as int) } else { c };
        assert(s@.take(copied) =~= t);
    }
    let mut j: usize = i;
    while j < FIELD_WIDTH
        invariant
            0 <= copied <= j <= FIELD_WIDTH,
            out@.len() == j,
            forall|p: int| 0 <= p < copied ==> out@[p] == s@.take(copied)[p],
            forall|p: int| copied <= p < out@.len() ==> out@[p] == PAD_BYTE,
        decreases FIELD_WIDTH - j,
    {
        let ghost prev = out@;
        out.push(PAD_BYTE);
        j = j + 1;
        proof {
            assert forall|p: int| copied <= p < out@.len() implies out@[p] == PAD_BYTE by {
                if p < prev.len() {
                    assert(out@[p] == prev[p]);
                }
            }
            assert forall|p: int| 0 <= p < copied implies out@[p] == s@.take(copied)[p] by {
                assert(out@[p] == prev[p]);
            }
        }
    }
    proof {
        let c = cstr_prefix(s@);
        let t = if c.len() > FIELD_WIDTH { c.take(FIELD_WIDTH as int) } else { c };
        assert(out@ =~= field_display(s@)) by {
            assert(s@.take(copied) == t);
            assert forall|p: int| 0 <= p < out@.len() implies out@[p] == field_display(s@)[p] by {
                if p < copied {
                    assert(out@[p] == s@.take(copied)[p]);
                }
            }
        }
    }
    out
}

/// Format a controller's display name from its raw model-number and
/// serial-number identification fields.
pub fn format_controller_name(mn: &[u8], sn: &[u8]) -> (r: Vec<u8>)
    ensures
        r@ == controller_name(mn@, sn@),
{
    let mut out: Vec<u8> = field_bytes(mn);
    out.push(PAD_BYTE);
    out.push(OPEN_PAREN);
    let mut tail = field_bytes(sn);
    out.append(&mut tail);
    out.push(CLOSE_PAREN);
    proof {
        assert(out@ =~= controller_name(mn@, sn@));
    }
    out
}

} // verus!
