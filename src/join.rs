//! Joining two borrowed byte views with a separator.
use vstd::prelude::*;
use vstd::string::StringSliceAdditionalSpecFns;
use crate::handle::{no_nul, TerminatedString};

verus! {

/// The text returned when either input is absent.
pub const NULL_POINTER_MESSAGE: &'static str = "Error: Null pointer provided";

/// The text returned when the joined bytes hold a zero byte.
pub const CREATE_FAILED_MESSAGE: &'static str = "Error: Could not create result string";

/// The three bytes placed between the two inputs: space, hyphen, space.
pub open spec fn separator() -> Seq<u8> {
    seq![32u8, 45u8, 32u8]
}

/// The bytes of an optional view.
pub open spec fn opt_bytes(v: Option<&[u8]>) -> Option<Seq<u8>> {
    match v {
        Some(s) => Some(s@),
        None => None,
    }
}

/// What joining `a` and `b` yields: `a`, the separator and `b` when both are
/// present and the result holds no zero byte; a fixed error text otherwise.
pub open spec fn join_outcome(a: Option<Seq<u8>>, b: Option<Seq<u8>>) -> Seq<u8> {
    match (a, b) {
        (Some(x), Some(y)) => {
            let joined = x + separator() + y;
            if no_nul(joined) {
                joined
            } else {
                CREATE_FAILED_MESSAGE.spec_bytes()
            }
        },
        _ => NULL_POINTER_MESSAGE.spec_bytes(),
    }
}

/// Two inputs without a zero byte join to the first, the separator and the
/// second, byte for byte.
pub proof fn lemma_join_of_terminator_free(a: Seq<u8>, b: Seq<u8>)
    requires
        no_nul(a),
        no_nul(b),
    ensures
        join_outcome(Some(a), Some(b)) == a + separator() + b,
{
    let j = a + separator() + b;
    assert forall|i: int| 0 <= i < j.len() implies #[trigger] j[i] != 0u8 by {
        if i < a.len() {
            assert(j[i] == a[i]);
        } else if i < a.len() + 3 {
            assert(j[i] == separator()[i - a.len()]);
        } else {
            assert(j[i] == b[i - a.len() - 3]);
        }
    }
}

/// An absent input, first, second or both, gives the null-input text.
pub proof fn lemma_join_absent(a: Option<Seq<u8>>, b: Option<Seq<u8>>)
    requires
        a is None || b is None,
    ensures
        join_outcome(a, b) == NULL_POINTER_MESSAGE.spec_bytes(),
{
}

/// Copies `src` onto the end of `dst`.
fn append_bytes(dst: &mut Vec<u8>, src: &[u8])
    requires
        old(dst)@.len() + src@.len() <= usize::MAX,
    ensures
        final(dst)@ == old(dst)@ + src@,
{
    let ghost start = dst@;
    let mut i: usize = 0;
    while i < src.len()
        invariant
            i <= src@.len(),
            dst@ == start + src@.subrange(0, i as int),
            start.len() + src@.len() <= usize::MAX,
        decreases src@.len() - i,
    {
        dst.push(src[i]);
        i = i + 1;
        assert(dst@ =~= start + src@.subrange(0, i as int));
    }
    assert(src@.subrange(0, src@.len() as int) =~= src@);
}

/// Whether `s` holds a zero byte.
fn contains_nul(s: &[u8]) -> (r: bool)
    ensures
        r == !no_nul(s@),
{
    let mut i: usize = 0;
    while i < s.len()
        invariant
            i <= s@.len(),
            forall|j: int| 0 <= j < i ==> #[trigger] s@[j] != 0u8,
        decreases s@.len() - i,
    {
        if s[i] == 0u8 {
            return true;
        }
        i = i + 1;
    }
    false
}

/// Joins `a` and `b` as `a`, then `" - "`, then `b`, into a new handle.
///
/// An absent input gives the text of [`NULL_POINTER_MESSAGE`]; a joined
/// sequence that holds a zero byte gives that of [`CREATE_FAILED_MESSAGE`].
/// The bytes are copied as they are, with no check of their encoding.
pub fn join_with_separator(a: Option<&[u8]>, b: Option<&[u8]>) -> (r: TerminatedString)
    requires
        a is Some && b is Some ==> a.unwrap()@.len() + b.unwrap()@.len() + 4 <= usize::MAX,
    ensures
        r.wf(),
        r@ == join_outcome(opt_bytes(a), opt_bytes(b)),
{
    proof {
        reveal_strlit("Error: Null pointer provided");
        reveal_strlit("Error: Could not create result string");
        crate::handle::lemma_ascii_no_nul(NULL_POINTER_MESSAGE);
        crate::handle::lemma_ascii_no_nul(CREATE_FAILED_MESSAGE);
    }
    match (a, b) {
        (Some(x), Some(y)) => {
            let mut joined: Vec<u8> = Vec::new();
            append_bytes(&mut joined, x);
            joined.push(32u8);
            joined.push(45u8);
            joined.push(32u8);
            append_bytes(&mut joined, y);
            assert(joined@ =~= x@ + separator() + y@);
            if contains_nul(joined.as_slice()) {
                TerminatedString::from_text(CREATE_FAILED_MESSAGE)
            } else {
                TerminatedString::from_content(joined)
            }
        },
        _ => TerminatedString::from_text(NULL_POINTER_MESSAGE),
    }
}

} // verus!
