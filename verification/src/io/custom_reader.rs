//! The input adapter: a pull-based, never-blocking byte stream backed by a
//! single buffered string that the UI supplies.
//!
//! Setting the input tokenizes the text and stores the tokens each
//! followed by a single `\n` byte, so that `"3  4\n5"` becomes the byte
//! stream `"3\n4\n5\n"`.  The separator class is deliberately pinned to
//! ASCII whitespace (space, tab, line feed, form feed, carriage return):
//! other Unicode whitespace, such as a no-break space, counts as token
//! content.  Reading from an empty buffer fails immediately with
//! [`ReadError::Exhausted`]; it never waits for more input.

use vstd::prelude::*;

verus! {

use vstd::string::StringSliceAdditionalSpecFns;

/// Error reported by every read operation once the buffer is empty.
#[derive(Clone, Copy, Debug, PartialEq, Eq, Structural)]
pub enum ReadError {
    /// The buffer holds no more bytes, and no new input can arrive
    /// synchronously.
    Exhausted,
}

/// True for the ASCII whitespace bytes that separate input tokens:
/// space, tab, line feed, form feed and carriage return.
pub open spec fn is_input_space(b: u8) -> bool {
    b == 32 || b == 9 || b == 10 || b == 12 || b == 13
}

/// The normalized buffer contents that the suffix `s` contributes, given
/// whether a token is already in progress: every maximal run of
/// non-whitespace bytes is emitted followed by a single `\n`.
pub open spec fn norm_from(s: Seq<u8>, in_token: bool) -> Seq<u8>
    decreases s.len(),
{
    if s.len() == 0 {
        if in_token {
            seq![10u8]
        } else {
            Seq::empty()
        }
    } else if is_input_space(s[0]) {
        (if in_token {
            seq![10u8]
        } else {
            Seq::empty()
        }) + norm_from(s.skip(1), false)
    } else {
        seq![s[0]] + norm_from(s.skip(1), true)
    }
}

/// What `set_input` stores for the byte encoding `s` of the given text:
/// the whitespace-separated tokens of `s`, each followed by `\n`.
pub open spec fn normalize_input(s: Seq<u8>) -> Seq<u8> {
    norm_from(s, false)
}

/// Index just past the first line of `s`: position of the first `\n`, or
/// the length of `s` when it holds none.
pub open spec fn line_end(s: Seq<u8>) -> int
    decreases s.len(),
{
    if s.len() == 0 {
        0
    } else if s[0] == 10 {
        0
    } else {
        1 + line_end(s.skip(1))
    }
}

pub proof fn lemma_line_end_bounds(s: Seq<u8>)
    ensures
        0 <= line_end(s) <= s.len(),
        forall|i: int| 0 <= i < line_end(s) ==> s[i] != 10,
        line_end(s) < s.len() ==> s[line_end(s)] == 10,
    decreases s.len(),
{
    if s.len() > 0 && s[0] != 10 {
        lemma_line_end_bounds(s.skip(1));
        assert forall|i: int| 0 <= i < line_end(s) implies s[i] != 10 by {
            if i > 0 {
                assert(s.skip(1)[i - 1] != 10);
            }
        }
    }
}

/// The input adapter.  It owns the pending bytes of user input; the view of
/// a `CustomReader` is that byte sequence.
#[derive(Debug)]
pub struct CustomReader {
    input: Vec<u8>,
}

impl View for CustomReader {
    type V = Seq<u8>;

    closed spec fn view(&self) -> Seq<u8> {
        self.input@
    }
}

fn is_space_byte(b: u8) -> (r: bool)
    ensures
        r == is_input_space(b),
{
    b == 32 || b == 9 || b == 10 || b == 12 || b == 13
}

impl CustomReader {
    /// A reader whose buffer holds the normalized form of `input`.
    pub fn new(input: &str) -> (r: CustomReader)
        ensures
            r@ == normalize_input(input.spec_bytes()),
    {
        let mut reader = CustomReader { input: Vec::new() };
        reader.set_input(input);
        reader
    }

    /// Replaces the pending buffer with the normalized form of `input`:
    /// its tokens, each followed by `\n`.  The pinned separator class is
    /// ASCII whitespace alone; Unicode whitespace beyond ASCII stays
    /// inside its token.
    pub fn set_input(&mut self, input: &str)
        ensures
            final(self)@ == normalize_input(input.spec_bytes()),
    {
        let bytes: &[u8] = input.as_bytes();
        let n: usize = bytes.len();
        let mut out: Vec<u8> = Vec::new();
        let mut in_token: bool = false;
        let mut i: usize = 0;
        proof {
            assert(bytes@.skip(0) =~= bytes@);
            assert(out@ + norm_from(bytes@, false) =~= norm_from(bytes@, false));
        }
        while i < n
            invariant
                n == bytes@.len(),
                i <= n,
                norm_from(bytes@, false) == out@ + norm_from(bytes@.skip(i as int), in_token),
            decreases n - i,
        {
            let b = *vstd::slice::slice_index_get(bytes, i);
            proof {
                assert(bytes@.skip(i as int)[0] == b);
                assert(bytes@.skip(i as int).skip(1) =~= bytes@.skip(i + 1 as int));
            }
            let ghost prev_out = out@;
            if is_space_byte(b) {
                if in_token {
                    out.push(10);
                    in_token = false;
                    proof {
                        assert(out@ =~= prev_out + seq![10u8]);
                        assert(prev_out + (seq![10u8] + norm_from(bytes@.skip(i + 1 as int), false))
                            =~= out@ + norm_from(bytes@.skip(i + 1 as int), false));
                    }
                }
            } else {
                out.push(b);
                in_token = true;
                proof {
                    assert(out@ =~= prev_out + seq![b]);
                    assert(prev_out + (seq![b] + norm_from(bytes@.skip(i + 1 as int), true))
                        =~= out@ + norm_from(bytes@.skip(i + 1 as int), true));
                }
            }
            i += 1;
        }
        proof {
            assert(bytes@.skip(n as int) =~= Seq::<u8>::empty());
        }
        if in_token {
            let ghost prev_out = out@;
            out.push(10);
            proof {
                assert(out@ =~= prev_out + seq![10u8]);
            }
        } else {
            proof {
                assert(out@ =~= out@ + Seq::<u8>::empty());
            }
        }
        self.input = out;
    }

    /// Copies up to `buf.len()` bytes from the front of the buffer into the
    /// front of `buf`, without consuming them.  Fails with
    /// [`ReadError::Exhausted`] when the buffer is empty; it never blocks.
    pub fn read(&mut self, buf: &mut Vec<u8>) -> (r: Result<usize, ReadError>)
        ensures
            final(self)@ == old(self)@,
            old(self)@.len() == 0 ==> r == Err::<usize, ReadError>(ReadError::Exhausted)
                && final(buf)@ == old(buf)@,
            old(self)@.len() > 0 ==> ({
                let n = if old(buf)@.len() <= old(self)@.len() {
                    old(buf)@.len() as int
                } else {
                    old(self)@.len() as int
                };
                r == Ok::<usize, ReadError>(n as usize) && final(buf)@ == old(self)@.take(n)
                    + old(buf)@.skip(n)
            }),
    {
        if self.input.len() == 0 {
            return Err(ReadError::Exhausted);
        }
        let n: usize = if buf.len() <= self.input.len() {
            buf.len()
        } else {
            self.input.len()
        };
        let mut i: usize = 0;
        while i < n
            invariant
                n <= buf@.len(),
                n <= self@.len(),
                i <= n,
                buf@.len() == old(buf)@.len(),
                self@ == old(self)@,
                buf@ =~= self@.take(i as int) + old(buf)@.skip(i as int),
            decreases n - i,
        {
            let b = self.input[i];
            buf[i] = b;
            proof {
                assert(buf@ =~= self@.take(i + 1 as int) + old(buf)@.skip(i + 1 as int));
            }
            i += 1;
        }
        Ok(n)
    }

    /// The whole pending buffer, or [`ReadError::Exhausted`] when it is
    /// empty.  Pairs with [`CustomReader::consume`] for buffered reading.
    pub fn fill_buf(&self) -> (r: Result<&[u8], ReadError>)
        ensures
            self@.len() == 0 ==> r is Err && r->Err_0 == ReadError::Exhausted,
            self@.len() > 0 ==> r is Ok && r->Ok_0@ == self@,
    {
        if self.input.len() == 0 {
            return Err(ReadError::Exhausted);
        }
        Ok(self.input.as_slice())
    }

    /// Drops the first `amt` bytes from the buffer (all of it when `amt`
    /// exceeds the pending length).
    pub fn consume(&mut self, amt: usize)
        ensures
            amt <= old(self)@.len() ==> final(self)@ == old(self)@.skip(amt as int),
            amt > old(self)@.len() ==> final(self)@ == Seq::<u8>::empty(),
    {
        if amt >= self.input.len() {
            self.input.clear();
            proof {
                assert(amt == old(self)@.len() ==> old(self)@.skip(amt as int) =~= Seq::<u8>::empty());
            }
        } else {
            let rest = self.input.split_off(amt);
            self.input = rest;
            proof {
                assert(old(self)@.subrange(amt as int, old(self)@.len() as int) =~= old(
                    self,
                )@.skip(amt as int));
            }
        }
    }

    /// Consumes and returns the first input line: the bytes before the
    /// first `\n` (the whole buffer when it holds none).  The terminating
    /// `\n` is consumed but not returned.  Fails with
    /// [`ReadError::Exhausted`] when the buffer is empty.
    pub fn read_line(&mut self) -> (r: Result<Vec<u8>, ReadError>)
        ensures
            old(self)@.len() == 0 ==> r is Err && r->Err_0 == ReadError::Exhausted && final(self)@
                == old(self)@,
            old(self)@.len() > 0 ==> ({
                let e = line_end(old(self)@);
                r is Ok && r->Ok_0@ == old(self)@.take(e) && final(self)@ == (if e + 1 <= old(
                    self,
                )@.len() {
                    old(self)@.skip(e + 1)
                } else {
                    Seq::<u8>::empty()
                })
            }),
    {
        proof {
            lemma_line_end_bounds(self@);
        }
        if self.input.len() == 0 {
            return Err(ReadError::Exhausted);
        }
        let n: usize = self.input.len();
        let mut e: usize = 0;
        while e < n && self.input[e] != 10
            invariant
                n == self@.len(),
                e <= n,
                forall|j: int| 0 <= j < e ==> self@[j] != 10,
                self@ == old(self)@,
            decreases n - e,
        {
            e += 1;
        }
        proof {
            lemma_line_end_agrees(self@, e as int);
        }
        let mut line: Vec<u8> = Vec::new();
        let mut i: usize = 0;
        while i < e
            invariant
                e <= n,
                n == self@.len(),
                i <= e,
                self@ == old(self)@,
                line@ =~= self@.take(i as int),
            decreases e - i,
        {
            let b = self.input[i];
            line.push(b);
            proof {
                assert(line@ =~= self@.take(i + 1 as int));
            }
            i += 1;
        }
        if e < n {
            self.consume(e + 1);
        } else {
            self.consume(e);
            proof {
                assert(old(self)@.skip(e as int) =~= Seq::<u8>::empty());
            }
        }
        Ok(line)
    }
}

/// A scan that stopped at index `e` because every earlier byte differs from
/// `\n` and `e` is either the length of `s` or the position of a `\n` has
/// found `line_end(s)`.
pub proof fn lemma_line_end_agrees(s: Seq<u8>, e: int)
    requires
        0 <= e <= s.len(),
        forall|j: int| 0 <= j < e ==> s[j] != 10,
        e < s.len() ==> s[e] == 10,
    ensures
        line_end(s) == e,
    decreases s.len(),
{
    if s.len() > 0 && s[0] != 10 {
        assert(forall|j: int| 0 <= j < e - 1 ==> s.skip(1)[j] == s[j + 1] && s[j + 1] != 10);
        lemma_line_end_agrees(s.skip(1), e - 1);
    }
}

} // verus!
