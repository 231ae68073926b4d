//! Framing of a byte stream into CRLF-terminated lines.
use vstd::prelude::*;

verus! {

pub const CR: u8 = 13;

pub const LF: u8 = 10;

/// Whether `s` holds a CR immediately followed by an LF anywhere.
pub open spec fn has_crlf(s: Seq<u8>) -> bool {
    exists|i: int| 0 <= i && i + 1 < s.len() && #[trigger] s[i] == CR && s[i + 1] == LF
}

/// Whether `s` ends with a CR and an LF.
pub open spec fn ends_with_crlf(s: Seq<u8>) -> bool {
    s.len() >= 2 && s[s.len() - 2] == CR && s[s.len() - 1] == LF
}

/// Why a connection's byte stream could not be framed.
#[derive(Debug, Clone, Copy, PartialEq, Eq, Structural)]
pub enum DecodeError {
    /// More bytes arrived without a line terminator than the buffer holds.
    LineTooLong,
}

/// Accumulates bytes until a CRLF ends a line.
pub struct Decoder {
    buf: Vec<u8>,
    capacity: usize,
}

impl Decoder {
    /// The bytes received since the last complete line.
    pub closed spec fn pending(&self) -> Seq<u8> {
        self.buf@
    }

    /// How many bytes a line may take, its terminator included.
    pub closed spec fn spec_capacity(&self) -> nat {
        self.capacity as nat
    }

    pub closed spec fn wf(&self) -> bool {
        &&& self.buf@.len() <= self.capacity
        &&& !has_crlf(self.buf@)
    }

    /// A decoder whose lines, terminator included, take at most `capacity` bytes.
    pub fn new(capacity: usize) -> (r: Decoder)
        ensures
            r.wf(),
            r.pending() == Seq::<u8>::empty(),
            r.spec_capacity() == capacity,
    {
        Decoder { buf: Vec::new(), capacity }
    }

    /// Takes one byte. Returns the line that it completes, without its CRLF,
    /// if it completes one. A byte that arrives when the buffer is full and
    /// holds no complete line is refused, and the buffer is emptied.
    pub fn push(&mut self, b: u8) -> (r: Result<Option<Vec<u8>>, DecodeError>)
        requires
            old(self).wf(),
        ensures
            final(self).wf(),
            final(self).spec_capacity() == old(self).spec_capacity(),
            old(self).pending().len() >= old(self).spec_capacity() ==> {
                &&& r == Err::<Option<Vec<u8>>, DecodeError>(DecodeError::LineTooLong)
                &&& final(self).pending() == Seq::<u8>::empty()
            },
            old(self).pending().len() < old(self).spec_capacity() ==> {
                let next = old(self).pending().push(b);
                if ends_with_crlf(next) {
                    &&& r matches Ok(Some(line))
                    &&& line@ == next.subrange(0, next.len() - 2)
                    &&& final(self).pending() == Seq::<u8>::empty()
                } else {
                    &&& r matches Ok(None)
                    &&& final(self).pending() == next
                }
            },
            r matches Ok(Some(line)) ==> !has_crlf(line@),
    {
        if self.buf.len() >= self.capacity {
            self.buf.clear();
            assert(!has_crlf(self.buf@));
            return Err(DecodeError::LineTooLong);
        }
        let ghost before = self.buf@;
        self.buf.push(b);
        let n = self.buf.len();
        if n >= 2 && self.buf[n - 2] == CR && self.buf[n - 1] == LF {
            let mut line = Vec::new();
            std::mem::swap(&mut line, &mut self.buf);
            line.truncate(n - 2);
            assert(line@ =~= before.drop_last());
            assert(!has_crlf(line@)) by {
                if has_crlf(line@) {
                    let i = choose|i: int| 0 <= i && i + 1 < line@.len() && #[trigger] line@[i] == CR && line@[i + 1] == LF;
                    assert(before[i] == CR && before[i + 1] == LF);
                }
            }
            assert(!has_crlf(self.buf@));
            Ok(Some(line))
        } else {
            assert(!has_crlf(self.buf@)) by {
                if has_crlf(self.buf@) {
                    let i = choose|i: int| 0 <= i && i + 1 < self.buf@.len() && #[trigger] self.buf@[i] == CR && self.buf@[i + 1] == LF;
                    if i + 2 < n {
                        assert(before[i] == CR && before[i + 1] == LF);
                    }
                }
            }
            Ok(None)
        }
    }
}

} // verus!
