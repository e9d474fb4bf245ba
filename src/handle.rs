//! The owned, zero-terminated string handed across the boundary.
use vstd::prelude::*;
use vstd::string::StringSliceAdditionalSpecFns;

verus! {

/// No byte of `s` is the terminator.
pub open spec fn no_nul(s: Seq<u8>) -> bool {
    forall|i: int| 0 <= i < s.len() ==> #[trigger] s[i] != 0u8
}

/// What a reader of a zero-terminated buffer sees: the bytes before the
/// first zero byte (all of them if there is none).
pub open spec fn read_until_nul(buf: Seq<u8>) -> Seq<u8>
    decreases buf.len(),
{
    if buf.len() == 0 || buf[0] == 0u8 {
        Seq::empty()
    } else {
        seq![buf[0]] + read_until_nul(buf.drop_first())
    }
}

/// An owned text buffer: the content bytes followed by a single zero byte.
///
/// The value is owned by whoever holds it. Moving it into [`release`] frees it;
/// Rust's ownership makes a second release of the same value impossible.
pub struct TerminatedString {
    bytes: Vec<u8>,
}

impl View for TerminatedString {
    type V = Seq<u8>;

    /// The content: every byte but the terminator.
    closed spec fn view(&self) -> Seq<u8> {
        self.bytes@.drop_last()
    }
}

impl TerminatedString {
    /// The whole buffer, terminator included.
    pub closed spec fn buffer(&self) -> Seq<u8> {
        self.bytes@
    }

    /// The buffer is the content followed by one zero byte, and the content
    /// holds no zero byte.
    pub open spec fn wf(&self) -> bool {
        &&& self.buffer().len() > 0
        &&& self.buffer().last() == 0u8
        &&& self@ == self.buffer().drop_last()
        &&& no_nul(self@)
    }

    /// Takes `content` and appends the terminator.
    pub fn from_content(content: Vec<u8>) -> (r: TerminatedString)
        requires
            no_nul(content@),
            content@.len() < usize::MAX,
        ensures
            r.wf(),
            r@ == content@,
    {
        let mut bytes = content;
        bytes.push(0u8);
        let r = TerminatedString { bytes };
        assert(r.bytes@.drop_last() =~= content@);
        r
    }

    /// Copies `content` and appends the terminator.
    pub fn from_slice(content: &[u8]) -> (r: TerminatedString)
        requires
            no_nul(content@),
            content@.len() < usize::MAX,
        ensures
            r.wf(),
            r@ == content@,
    {
        let mut bytes: Vec<u8> = Vec::new();
        let mut i: usize = 0;
        while i < content.len()
            invariant
                i <= content@.len(),
                bytes@ == content@.subrange(0, i as int),
            decreases content@.len() - i,
        {
            bytes.push(content[i]);
            i = i + 1;
            assert(bytes@ =~= content@.subrange(0, i as int));
        }
        assert(bytes@ =~= content@);
        TerminatedString::from_content(bytes)
    }

    /// Copies the UTF-8 bytes of `text`, which hold no zero byte.
    pub fn from_text(text: &str) -> (r: TerminatedString)
        requires
            no_nul(text.spec_bytes()),
            text.spec_bytes().len() < usize::MAX,
        ensures
            r.wf(),
            r@ == text.spec_bytes(),
    {
        TerminatedString::from_slice(text.as_bytes())
    }

    /// The content, without the terminator.
    pub fn as_bytes(&self) -> (r: &[u8])
        requires
            self.wf(),
        ensures
            r@ == self@,
    {
        let n = self.bytes.len() - 1;
        let r = self.bytes.as_slice().split_at(n).0;
        r
    }

    /// The whole buffer, terminator included.
    pub fn as_bytes_with_nul(&self) -> (r: &[u8])
        ensures
            r@ == self.buffer(),
    {
        self.bytes.as_slice()
    }

    /// Gives up the buffer, terminator included.
    pub fn into_bytes_with_nul(self) -> (r: Vec<u8>)
        ensures
            r@ == self.buffer(),
    {
        self.bytes
    }

    /// The number of content bytes.
    pub fn len(&self) -> (r: usize)
        requires
            self.wf(),
        ensures
            r == self@.len(),
    {
        self.bytes.len() - 1
    }
}

/// A literal whose characters are ASCII and not the terminator has UTF-8
/// bytes free of zero.
pub(crate) proof fn lemma_ascii_no_nul(s: &str)
    requires
        forall|i: int| 0 <= i < s@.len() ==> '\0' < #[trigger] s@[i] <= '\u{7f}',
    ensures
        no_nul(s.spec_bytes()),
        s.spec_bytes().len() == s@.len(),
{
    broadcast use vstd::string::is_ascii_spec_bytes;
    assert(vstd::string::is_ascii(s));
    let b = s.spec_bytes();
    assert forall|i: int| 0 <= i < b.len() implies b[i] != 0u8 by {
        assert(b[i] == s@[i] as u8);
    }
}

/// Gives a handle back; an absent handle is accepted and nothing happens.
///
/// The handle is moved in and dropped here, which frees its buffer.
pub fn release(handle: Option<TerminatedString>) {
    match handle {
        Some(h) => {
            let _ = h.into_bytes_with_nul();
        },
        None => {},
    }
}

/// A reader that stops at the first zero byte of a well-formed handle's buffer
/// reads back exactly the handle's content.
pub proof fn lemma_read_back(h: &TerminatedString)
    requires
        h.wf(),
    ensures
        read_until_nul(h.buffer()) == h@,
{
    lemma_read_until_nul_of_terminated(h@);
    assert(h.buffer() =~= h@.push(0u8));
}

proof fn lemma_read_until_nul_of_terminated(s: Seq<u8>)
    requires
        no_nul(s),
    ensures
        read_until_nul(s.push(0u8)) == s,
    decreases s.len(),
{
    if s.len() == 0 {
        assert(s.push(0u8)[0] == 0u8);
        assert(s =~= Seq::<u8>::empty());
    } else {
        let t = s.drop_first();
        assert(no_nul(t)) by {
            assert forall|i: int| 0 <= i < t.len() implies t[i] != 0u8 by {
                assert(t[i] == s[i + 1]);
            }
        }
        lemma_read_until_nul_of_terminated(t);
        assert(s.push(0u8).drop_first() =~= t.push(0u8));
        assert(s.push(0u8)[0] == s[0]);
        assert(seq![s[0]] + t =~= s);
    }
}

} // verus!
