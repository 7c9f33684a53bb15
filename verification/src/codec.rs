//! The interface of the encoder.

use crate::lex::{kw, put_byte, put_str};
use vstd::prelude::*;
use vstd::string::*;

verus! {

/// A value that has a wire form. Encoding never fails.
pub trait Encoder: DeepView + Sized {
    /// The bytes that stand for the value `v`.
    spec fn wire(v: Self::V) -> Seq<u8>;

    /// Appends the bytes that stand for the value.
    fn encode_into(&self, out: &mut Vec<u8>)
        ensures
            final(out)@ == old(out)@ + Self::wire(self.deep_view()),
    ;

    /// The bytes that stand for the value.
    fn encode(&self) -> (r: Vec<u8>)
        ensures
            r@ == Self::wire(self.deep_view()),
    {
        let mut out: Vec<u8> = Vec::new();
        self.encode_into(&mut out);
        assert(out@ =~= Self::wire(self.deep_view()));
        out
    }
}

/// Records that `piece` was appended to an output that held `start` and
/// then `done`: the output now holds `start` and then the result.
pub(crate) fn appended(start: Ghost<Seq<u8>>, done: Ghost<Seq<u8>>, piece: Ghost<Seq<u8>>) -> (r: Ghost<
    Seq<u8>,
>)
    ensures
        r@ == done@ + piece@,
        (start@ + done@) + piece@ == start@ + r@,
{
    assert((start@ + done@) + piece@ =~= start@ + (done@ + piece@));
    Ghost(done@ + piece@)
}

/// Appends the value `x` to an output that holds `start` and then `done`.
pub(crate) fn emit<T: Encoder>(x: &T, out: &mut Vec<u8>, start: Ghost<Seq<u8>>, done: Ghost<Seq<u8>>)
    -> (r: Ghost<Seq<u8>>)
    requires
        old(out)@ == start@ + done@,
    ensures
        final(out)@ == start@ + r@,
        r@ == done@ + T::wire(x.deep_view()),
{
    x.encode_into(out);
    appended(start, done, Ghost(T::wire(x.deep_view())))
}

/// Appends the byte `b` to an output that holds `start` and then `done`.
pub(crate) fn emit_byte(b: u8, out: &mut Vec<u8>, start: Ghost<Seq<u8>>, done: Ghost<Seq<u8>>) -> (r:
    Ghost<Seq<u8>>)
    requires
        old(out)@ == start@ + done@,
    ensures
        final(out)@ == start@ + r@,
        r@ == done@ + seq![b],
{
    put_byte(out, b);
    appended(start, done, Ghost(Seq::<u8>::empty().push(b)))
}

/// Appends the keyword `word` to an output that holds `start` and then
/// `done`.
pub(crate) fn emit_str(word: &str, out: &mut Vec<u8>, start: Ghost<Seq<u8>>, done: Ghost<Seq<u8>>) -> (r:
    Ghost<Seq<u8>>)
    requires
        old(out)@ == start@ + done@,
    ensures
        final(out)@ == start@ + r@,
        r@ == done@ + kw(word),
{
    put_str(out, word);
    appended(start, done, Ghost(kw(word)))
}

} // verus!
