//! The output adapter: forwards every write the interpreter performs to the
//! UI as a decoded text notification, in order.
//!
//! A write decodes its bytes as UTF-8 (lossy: invalid sequences are replaced,
//! never rejected), appends the text to the notification queue and reports
//! the full byte count as consumed.  There is no internal byte buffering, so
//! flushing is a no-op.  The controller drains the queue after every
//! interpreter step and renders each notification on its console.

use vstd::prelude::*;

verus! {

/// The text that lossy UTF-8 decoding yields for the byte sequence `b`.
/// It depends on the bytes alone.
pub uninterp spec fn utf8_lossy(b: Seq<u8>) -> Seq<char>;

/// Relies on `String::from_utf8_lossy`: decodes bytes as UTF-8, replacing
/// invalid sequences with U+FFFD; the result is a function of the bytes
/// alone, and valid UTF-8 decodes to exactly its text.
#[verifier::external_body]
fn decode_utf8_lossy(b: &[u8]) -> (r: String)
    ensures
        r@ == utf8_lossy(b@),
        vstd::utf8::valid_utf8(b@) ==> r@ == vstd::utf8::decode_utf8(b@),
{
    String::from_utf8_lossy(b).to_string()
}

/// The output adapter.  Its view is the queue of pending text
/// notifications, oldest first.
#[derive(Debug)]
pub struct CustomWriter {
    messages: Vec<String>,
}

impl View for CustomWriter {
    type V = Seq<Seq<char>>;

    closed spec fn view(&self) -> Seq<Seq<char>> {
        self.messages.deep_view()
    }
}

impl CustomWriter {
    /// A writer with no pending notifications.
    pub fn new() -> (r: CustomWriter)
        ensures
            r@ == Seq::<Seq<char>>::empty(),
    {
        let w = CustomWriter { messages: Vec::new() };
        proof {
            assert(w@ =~= Seq::<Seq<char>>::empty());
        }
        w
    }

    /// Decodes `buf` as UTF-8 (lossy) and queues the text as one
    /// notification; the whole of `buf` counts as written.  Valid UTF-8 is
    /// delivered as exactly its text.
    pub fn write(&mut self, buf: &[u8]) -> (r: usize)
        ensures
            r == buf@.len(),
            final(self)@ == old(self)@.push(utf8_lossy(buf@)),
            vstd::utf8::valid_utf8(buf@) ==> utf8_lossy(buf@) == vstd::utf8::decode_utf8(buf@),
    {
        let data = decode_utf8_lossy(buf);
        self.messages.push(data);
        proof {
            assert(final(self)@ =~= old(self)@.push(utf8_lossy(buf@)));
        }
        buf.len()
    }

    /// Nothing is buffered byte-wise, so there is nothing to flush.
    pub fn flush(&mut self)
        ensures
            *final(self) == *old(self),
    {
    }

    /// Hands the pending notifications to the observer, oldest first,
    /// leaving the queue empty.
    pub fn take_messages(&mut self) -> (r: Vec<String>)
        ensures
            r.deep_view() == old(self)@,
            final(self)@ == Seq::<Seq<char>>::empty(),
    {
        let mut out: Vec<String> = Vec::new();
        core::mem::swap(&mut out, &mut self.messages);
        proof {
            assert(final(self)@ =~= Seq::<Seq<char>>::empty());
        }
        out
    }
}

} // verus!
