//! Zero-terminated UTF-8 text: one string at the start of a buffer, or the run of
//! strings that a buffer starts with.
use vstd::prelude::*;
use vstd::slice::slice_subrange;
use vstd::string::StringSliceAdditionalSpecFns;
use vstd::utf8::{decode_utf8, valid_utf8};
use crate::error::ReadError;

verus! {

/// `bytes` holds a zero byte.
pub open spec fn has_terminator(bytes: Seq<u8>) -> bool {
    exists|at: int| 0 <= at < bytes.len() && bytes[at] == 0
}

/// The first zero byte of `bytes` stands at index `at`.
pub open spec fn terminated_at(bytes: Seq<u8>, at: int) -> bool {
    &&& 0 <= at < bytes.len()
    &&& bytes[at] == 0
    &&& forall|before: int| 0 <= before < at ==> bytes[before] != 0
}

/// Where the first zero byte of `bytes` stands, if there is one.
pub open spec fn terminator(bytes: Seq<u8>) -> int {
    choose|at: int| terminated_at(bytes, at)
}

/// The bytes of the string that `bytes` starts with: all that stands before the
/// first zero byte.
pub open spec fn content(bytes: Seq<u8>) -> Seq<u8> {
    bytes.subrange(0, terminator(bytes))
}

/// What is left of `bytes` after the string it starts with and that string's
/// terminator.
pub open spec fn rest(bytes: Seq<u8>) -> Seq<u8> {
    bytes.skip(terminator(bytes) + 1)
}

/// What reading the string at the start of `bytes` answers: its characters, where a
/// zero byte ends it and the bytes before that are well-formed UTF-8. The terminator
/// is looked for first.
pub open spec fn readstr_spec(bytes: Seq<u8>) -> Result<Seq<char>, ReadError> {
    if !has_terminator(bytes) {
        Err(ReadError::NoTerminator)
    } else if !valid_utf8(content(bytes)) {
        Err(ReadError::InvalidUtf8)
    } else {
        Ok(decode_utf8(content(bytes)))
    }
}

/// A run of strings is over where nothing is left, or where a zero byte comes first.
pub open spec fn at_end(bytes: Seq<u8>) -> bool {
    bytes.len() == 0 || bytes[0] == 0
}

/// The strings that a cursor over `bytes` hands out one after the other, up to the
/// end of the run or to the first string that cannot be read.
pub open spec fn strings(bytes: Seq<u8>) -> Seq<Seq<char>>
    decreases bytes.len(),
    via strings_decreases
{
    if at_end(bytes) || readstr_spec(bytes) is Err {
        Seq::empty()
    } else {
        seq![decode_utf8(content(bytes))] + strings(rest(bytes))
    }
}

#[via_fn]
proof fn strings_decreases(bytes: Seq<u8>) {
    if !at_end(bytes) && readstr_spec(bytes) is Ok {
        lemma_terminator(bytes);
    }
}

/// There is only one first zero byte.
pub proof fn lemma_terminator_unique(bytes: Seq<u8>, at: int)
    requires
        terminated_at(bytes, at),
    ensures
        has_terminator(bytes),
        terminator(bytes) == at,
{
}

/// Before any zero byte, or at it, stands the first one.
pub proof fn lemma_zero_byte_terminates(bytes: Seq<u8>, at: int)
    requires
        0 <= at < bytes.len(),
        bytes[at] == 0,
    ensures
        terminated_at(bytes, terminator(bytes)),
        terminator(bytes) <= at,
    decreases at,
{
    if exists|before: int| 0 <= before < at && bytes[before] == 0 {
        let before = choose|before: int| 0 <= before < at && bytes[before] == 0;
        lemma_zero_byte_terminates(bytes, before);
    } else {
        lemma_terminator_unique(bytes, at);
    }
}

/// In a buffer with a zero byte, `terminator` is the index of the first one. The
/// string takes up the bytes before it, and what is left starts after it.
pub proof fn lemma_terminator(bytes: Seq<u8>)
    requires
        has_terminator(bytes),
    ensures
        terminated_at(bytes, terminator(bytes)),
        content(bytes).len() == terminator(bytes),
        rest(bytes).len() == bytes.len() - terminator(bytes) - 1,
{
    let at = choose|at: int| 0 <= at < bytes.len() && bytes[at] == 0;
    lemma_zero_byte_terminates(bytes, at);
}

/// A cursor never hands out more strings than half the bytes it has left: each one
/// takes up a byte of content at least, and its terminator.
pub proof fn lemma_strings_bound(bytes: Seq<u8>)
    ensures
        2 * strings(bytes).len() <= bytes.len(),
    decreases bytes.len(),
{
    if !at_end(bytes) && readstr_spec(bytes) is Ok {
        lemma_terminator(bytes);
        lemma_strings_bound(rest(bytes));
    }
}

/// Finds the bytes of the string that `input` starts with: all that stands before
/// the first zero byte. Without a zero byte there is no string.
pub fn read_strbytes(input: &[u8]) -> (outcome: Result<&[u8], ReadError>)
    ensures
        match outcome {
            Ok(found) => has_terminator(input@) && found@ == content(input@),
            Err(error) => !has_terminator(input@) && error == ReadError::NoTerminator,
        },
{
    let mut at: usize = 0;
    while at < input.len()
        invariant
            at <= input@.len(),
            forall|before: int| 0 <= before < at ==> input@[before] != 0,
        decreases input@.len() - at,
    {
        if input[at] == 0 {
            proof {
                lemma_terminator_unique(input@, at as int);
            }
            return Ok(slice_subrange(input, 0, at));
        }
        at += 1;
    }
    Err(ReadError::NoTerminator)
}

/// Reads the zero-terminated UTF-8 string that `input` starts with.
///
/// The read is refused with `NoTerminator` where `input` holds no zero byte, and
/// otherwise with `InvalidUtf8` where the bytes before the first zero byte are not
/// well-formed UTF-8. Else the string is made of exactly those bytes, borrowed from
/// `input`; the terminator is not part of it.
pub fn readstr(input: &[u8]) -> (outcome: Result<&str, ReadError>)
    ensures
        match outcome {
            Ok(text) => readstr_spec(input@) == Ok::<Seq<char>, ReadError>(text@)
                && text.spec_bytes() == content(input@),
            Err(error) => readstr_spec(input@) == Err::<Seq<char>, ReadError>(error),
        },
{
    match read_strbytes(input) {
        Ok(found) => match core::str::from_utf8(found) {
            Ok(text) => {
                proof {
                    vstd::utf8::encode_utf8_decode_utf8(text@);
                }
                Ok(text)
            },
            Err(_) => Err(ReadError::InvalidUtf8),
        },
        Err(error) => Err(error),
    }
}

/// Reads the zero-terminated UTF-8 string that `input` starts with, without
/// allowing for a refusal: the caller guarantees that `input` holds a zero byte and
/// that the bytes before the first one are well-formed UTF-8.
pub fn read_strunsafe(input: &[u8]) -> (text: &str)
    requires
        has_terminator(input@),
        valid_utf8(content(input@)),
    ensures
        text@ == decode_utf8(content(input@)),
        text.spec_bytes() == content(input@),
{
    match readstr(input) {
        Ok(text) => text,
        Err(_) => vstd::pervasive::unreached(),
    }
}

/// A cursor over a buffer that starts with a run of zero-terminated UTF-8 strings.
///
/// It holds what is left of the buffer, hands out one string at a time and moves
/// past it. It cannot be wound back: to go through the strings again, make a new
/// cursor over the buffer.
#[derive(Debug)]
pub struct StrReadIter<'a> {
    dat: &'a [u8],
}

impl<'a> Clone for StrReadIter<'a> {
    /// A second cursor at the same place; the two move apart from there.
    fn clone(&self) -> (copy: Self)
        ensures
            copy@ == self@,
    {
        StrReadIter { dat: self.dat }
    }
}

impl<'a> StrReadIter<'a> {
    /// The bytes that the cursor has not moved past.
    pub closed spec fn view(&self) -> Seq<u8> {
        self.dat@
    }

    /// Hands out the next string of the run and moves past it and its terminator.
    ///
    /// The run is over, and the answer `None`, where nothing is left or a zero byte
    /// comes first; that zero byte stays where it is. Otherwise the string at the
    /// start of what is left is read as [`readstr`] reads it. Where that read is
    /// refused the cursor does not move.
    pub fn next(&mut self) -> (item: Option<Result<&'a str, ReadError>>)
        ensures
            match item {
                None => {
                    &&& at_end(old(self)@)
                    &&& final(self)@ == old(self)@
                    &&& strings(old(self)@) == Seq::<Seq<char>>::empty()
                },
                Some(Ok(text)) => {
                    &&& !at_end(old(self)@)
                    &&& readstr_spec(old(self)@) == Ok::<Seq<char>, ReadError>(text@)
                    &&& text.spec_bytes() == content(old(self)@)
                    &&& final(self)@ == rest(old(self)@)
                    &&& strings(old(self)@) == seq![text@] + strings(final(self)@)
                },
                Some(Err(error)) => {
                    &&& !at_end(old(self)@)
                    &&& readstr_spec(old(self)@) == Err::<Seq<char>, ReadError>(error)
                    &&& final(self)@ == old(self)@
                    &&& strings(old(self)@) == Seq::<Seq<char>>::empty()
                },
            },
    {
        if self.dat.len() == 0 || self.dat[0] == 0 {
            return None;
        }
        match readstr(self.dat) {
            Ok(text) => {
                proof {
                    lemma_terminator(self.dat@);
                }
                self.dat = slice_subrange(self.dat, text.len() + 1, self.dat.len());
                Some(Ok(text))
            },
            Err(error) => Some(Err(error)),
        }
    }

    /// Bounds on the number of strings that are still to come: none at least, and
    /// at most half as many as there are bytes left.
    pub fn size_hint(&self) -> (hint: (usize, Option<usize>))
        ensures
            hint.0 == 0,
            hint.1 == Some((self@.len() / 2) as usize),
            hint.0 <= strings(self@).len() <= hint.1.unwrap(),
    {
        proof {
            lemma_strings_bound(self@);
        }
        (0, Some(self.dat.len() / 2))
    }

    /// What is left of the buffer.
    pub fn remaining(&self) -> (bytes: &'a [u8])
        ensures
            bytes@ == self@,
    {
        self.dat
    }
}

/// Makes a cursor over the run of zero-terminated UTF-8 strings that `input` starts
/// with. Nothing is read yet.
pub fn readstr2null(input: &[u8]) -> (cursor: StrReadIter<'_>)
    ensures
        cursor@ == input@,
{
    StrReadIter { dat: input }
}

} // verus!
