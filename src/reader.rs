use vstd::prelude::*;
use vstd::slice::slice_subrange;
use vstd::string::StringSliceAdditionalSpecFns;
use vstd::utf8::valid_utf8;

use crate::error::{err_matches, is_err_at, ErrorKind, IntType, ParseError, ParseResult, SpecResult};
use crate::leb128::spec_leb;

verus! {

/// A cursor over an immutable byte slice.
///
/// The cursor reads between its position and its limit; offsets stay relative
/// to the whole slice, so that a reader over one section still anchors its
/// errors in the whole input.
pub struct Reader<'a> {
    bytes: &'a [u8],
    idx: usize,
    end: usize,
}

/// A position in the input, used as the anchor of a parse error.
#[derive(Clone, Copy, Debug)]
pub struct Mark<'a> {
    bytes: &'a [u8],
    idx: usize,
}

impl<'a> Mark<'a> {
    #[verifier::type_invariant]
    spec fn inv(&self) -> bool {
        self.idx <= self.bytes@.len()
    }

    /// The offset that this mark points at.
    pub closed spec fn pos(&self) -> int {
        self.idx as int
    }

    /// The input that this mark points into.
    pub closed spec fn data(&self) -> Seq<u8> {
        self.bytes@
    }

    /// The offset that this mark points at.
    pub fn offset(&self) -> (r: usize)
        ensures
            r == self.pos(),
    {
        self.idx
    }

    /// The offset of this mark, which lies within its input.
    pub fn checked_offset(&self) -> (r: usize)
        ensures
            r == self.pos(),
            r <= self.data().len(),
    {
        proof {
            use_type_invariant(self);
        }
        self.idx
    }

    /// Builds a parse error of kind `kind` anchored at this mark.
    pub fn into_error(self, kind: ErrorKind) -> (r: ParseError<'a>)
        ensures
            r.kind == kind,
            r.mark == self,
    {
        ParseError { mark: self, kind }
    }

    /// Builds a parse error of kind `kind` anchored at this mark.
    pub fn to_error(self, kind: ErrorKind) -> (r: ParseError<'a>)
        ensures
            r.kind == kind,
            r.mark == self,
    {
        self.into_error(kind)
    }

    /// Fails with a parse error of kind `kind` anchored at this mark.
    pub fn throw(self, kind: ErrorKind) -> (r: ParseResult<'a, ()>)
        ensures
            is_err_at(r, kind, self.pos()),
    {
        Err(self.into_error(kind))
    }
}

/// The value of bytes `s[p..p + n]` read as a little-endian unsigned integer.
pub open spec fn le_value(s: Seq<u8>, p: int, n: nat) -> int
    decreases n,
{
    if n == 0 {
        0
    } else {
        s[p] as int + 256 * le_value(s, p + 1, (n - 1) as nat)
    }
}

/// The index of the first byte equal to `b` in `s[p..e]`, if any.
pub open spec fn find_byte(s: Seq<u8>, p: int, e: int, b: u8) -> Option<int>
    decreases e - p,
{
    if p >= e {
        None
    } else if s[p] == b {
        Some(p)
    } else {
        find_byte(s, p + 1, e, b)
    }
}

/// Where `find_byte` finds a byte, it lies in the range searched.
pub proof fn lemma_find_byte_range(s: Seq<u8>, p: int, e: int, b: u8)
    ensures
        find_byte(s, p, e, b) is Some ==> p <= find_byte(s, p, e, b)->Some_0 < e,
    decreases e - p,
{
    if p < e && s[p] != b {
        lemma_find_byte_range(s, p + 1, e, b);
    }
}

impl<'a> Reader<'a> {
    /// The cursor and the limit lie within the input.
    pub open spec fn wf(&self) -> bool {
        0 <= self.pos() <= self.limit() <= self.data().len()
    }

    /// The whole input.
    pub closed spec fn data(&self) -> Seq<u8> {
        self.bytes@
    }

    /// The position of the cursor.
    pub closed spec fn pos(&self) -> int {
        self.idx as int
    }

    /// The position where this reader stops reading.
    pub closed spec fn limit(&self) -> int {
        self.end as int
    }

    /// The bytes between the cursor and the limit.
    pub open spec fn rest(&self) -> Seq<u8> {
        self.data().subrange(self.pos(), self.limit())
    }

    /// `self` is well formed, reads the same input up to the same limit as
    /// `other`, and is not behind it.
    pub open spec fn follows(&self, other: &Reader) -> bool {
        &&& self.wf()
        &&& self.pos() >= other.pos()
        &&& self.data() == other.data()
        &&& self.limit() == other.limit()
    }

    /// A reader over the whole of `bytes`.
    pub fn new(bytes: &'a [u8]) -> (r: Self)
        ensures
            r.data() == bytes@,
            r.pos() == 0,
            r.limit() == bytes@.len(),
            r.wf(),
    {
        Reader { bytes, idx: 0, end: bytes.len() }
    }

    /// A mark at the cursor.
    pub fn mark(&self) -> (r: Mark<'a>)
        requires
            self.wf(),
        ensures
            r.pos() == self.pos(),
            r.data() == self.data(),
    {
        Mark { bytes: self.bytes, idx: self.idx }
    }

    /// A mark `offset` bytes away from the cursor.
    pub fn mark_relative(&self, offset: isize) -> (r: Mark<'a>)
        requires
            self.wf(),
            0 <= self.pos() + offset <= self.data().len(),
        ensures
            r.pos() == self.pos() + offset,
            r.data() == self.data(),
    {
        let _len: usize = self.bytes.len();
        let idx: usize = if offset < 0 {
            self.idx - ((0 - (offset as i128)) as usize)
        } else {
            self.idx + (offset as usize)
        };
        Mark { bytes: self.bytes, idx }
    }

    /// The bytes that are left to read.
    pub fn remaining(&self) -> (r: &'a [u8])
        requires
            self.wf(),
        ensures
            r@ == self.rest(),
    {
        slice_subrange(self.bytes, self.idx, self.end)
    }

    /// Whether nothing is left to read.
    pub fn is_empty(&self) -> (r: bool)
        ensures
            r == (self.pos() >= self.limit()),
    {
        self.end <= self.idx
    }

    /// The number of bytes left to read.
    pub fn len(&self) -> (r: usize)
        requires
            self.wf(),
        ensures
            r == self.limit() - self.pos(),
    {
        self.end - self.idx
    }

    /// A reader over the next `len` bytes; this reader does not move.
    pub fn narrowed(&self, len: usize) -> (r: Reader<'a>)
        requires
            self.wf(),
            self.pos() + len <= self.limit(),
        ensures
            r.wf(),
            r.data() == self.data(),
            r.pos() == self.pos(),
            r.limit() == self.pos() + len,
    {
        Reader { bytes: self.bytes, idx: self.idx, end: self.idx + len }
    }

    /// Moves the cursor `len` bytes forward.
    pub fn skip(&mut self, len: usize)
        requires
            old(self).wf(),
            old(self).pos() + len <= old(self).limit(),
        ensures
            final(self).follows(old(self)),
            final(self).pos() == old(self).pos() + len,
    {
        self.idx = self.idx + len;
    }

    /// Reads exactly `n` bytes.
    pub fn read_exact(&mut self, n: usize) -> (r: ParseResult<'a, &'a [u8]>)
        requires
            old(self).wf(),
        ensures
            final(self).follows(old(self)),
            old(self).pos() + n <= old(self).limit() ==> r is Ok && r->Ok_0@ == old(
                self,
            ).data().subrange(old(self).pos(), old(self).pos() + n) && final(self).pos() == old(
                self,
            ).pos() + n,
            old(self).pos() + n > old(self).limit() ==> is_err_at(
                r,
                ErrorKind::EndOfFile,
                old(self).pos(),
            ) && *final(self) == *old(self),
    {
        if self.end - self.idx < n {
            return Err(self.mark().into_error(ErrorKind::EndOfFile));
        }
        let slice = slice_subrange(self.bytes, self.idx, self.idx + n);
        self.idx = self.idx + n;
        Ok(slice)
    }

    /// Reads one byte without consuming it.
    pub fn peek_u8(&mut self) -> (r: ParseResult<'a, u8>)
        requires
            old(self).wf(),
        ensures
            *final(self) == *old(self),
            old(self).pos() < old(self).limit() ==> r == Ok::<u8, ParseError<'a>>(
                old(self).data()[old(self).pos()],
            ),
            old(self).pos() >= old(self).limit() ==> is_err_at(
                r,
                ErrorKind::EndOfFile,
                old(self).pos(),
            ),
    {
        if self.idx < self.end {
            Ok(self.bytes[self.idx])
        } else {
            Err(self.mark().into_error(ErrorKind::EndOfFile))
        }
    }

    /// Reads one byte.
    pub fn read_u8(&mut self) -> (r: ParseResult<'a, u8>)
        requires
            old(self).wf(),
        ensures
            final(self).follows(old(self)),
            old(self).pos() < old(self).limit() ==> r == Ok::<u8, ParseError<'a>>(
                old(self).data()[old(self).pos()],
            ) && final(self).pos() == old(self).pos() + 1,
            old(self).pos() >= old(self).limit() ==> is_err_at(
                r,
                ErrorKind::EndOfFile,
                old(self).pos(),
            ) && *final(self) == *old(self),
    {
        if self.idx < self.end {
            let b = self.bytes[self.idx];
            self.idx = self.idx + 1;
            Ok(b)
        } else {
            Err(self.mark().into_error(ErrorKind::EndOfFile))
        }
    }

    /// Consumes the next byte if `cb` accepts it; returns whether it did.
    pub fn read_u8_if<F: FnOnce(u8) -> bool>(&mut self, cb: F) -> (r: ParseResult<'a, bool>)
        requires
            old(self).wf(),
            forall|b: u8| cb.requires((b,)),
        ensures
            final(self).follows(old(self)),
            old(self).pos() >= old(self).limit() ==> is_err_at(
                r,
                ErrorKind::EndOfFile,
                old(self).pos(),
            ),
            old(self).pos() < old(self).limit() ==> {
                &&& r is Ok
                &&& cb.ensures((old(self).data()[old(self).pos()],), r->Ok_0)
                &&& final(self).pos() == old(self).pos() + if r->Ok_0 {
                    1int
                } else {
                    0int
                }
            },
    {
        let b = self.peek_u8()?;
        if cb(b) {
            self.read_u8()?;
            Ok(true)
        } else {
            Ok(false)
        }
    }

    /// Reads a `u32` stored as four little-endian bytes.
    pub fn read_u32_le(&mut self) -> (r: ParseResult<'a, u32>)
        requires
            old(self).wf(),
        ensures
            final(self).follows(old(self)),
            old(self).pos() + 4 <= old(self).limit() ==> r is Ok && r->Ok_0 == le_value(
                old(self).data(),
                old(self).pos(),
                4,
            ) && final(self).pos() == old(self).pos() + 4,
            old(self).pos() + 4 > old(self).limit() ==> is_err_at(
                r,
                ErrorKind::EndOfFile,
                old(self).pos(),
            ),
    {
        let s = self.read_exact(4)?;
        proof {
            reveal_with_fuel(le_value, 5);
        }
        Ok(s[0] as u32 + 256 * (s[1] as u32 + 256 * (s[2] as u32 + 256 * s[3] as u32)))
    }

    /// Reads a `u64` stored as eight little-endian bytes.
    pub fn read_u64_le(&mut self) -> (r: ParseResult<'a, u64>)
        requires
            old(self).wf(),
        ensures
            final(self).follows(old(self)),
            old(self).pos() + 8 <= old(self).limit() ==> r is Ok && r->Ok_0 == le_value(
                old(self).data(),
                old(self).pos(),
                8,
            ) && final(self).pos() == old(self).pos() + 8,
            old(self).pos() + 8 > old(self).limit() ==> is_err_at(
                r,
                ErrorKind::EndOfFile,
                old(self).pos(),
            ),
    {
        let s = self.read_exact(8)?;
        let mut v: u64 = 0;
        let mut i: usize = 8;
        while i > 0
            invariant
                s@.len() == 8,
                i <= 8,
                v == le_value(s@, i as int, (8 - i) as nat),
                v < pow256((8 - i) as nat),
            decreases i,
        {
            i = i - 1;
            proof {
                lemma_pow256_bound((8 - i) as nat);
            }
            assert(v * 256 + s@[i as int] < pow256((8 - i) as nat)) by (nonlinear_arith)
                requires
                    v < pow256((7 - i) as nat),
                    pow256((8 - i) as nat) == 256 * pow256((7 - i) as nat),
                    s@[i as int] < 256,
            ;
            v = s[i] as u64 + 256 * v;
        }
        proof {
            lemma_le_value_shift(old(self).data(), s@, old(self).pos(), 0, 8);
        }
        Ok(v)
    }
}

/// `256` to the power `n`.
pub open spec fn pow256(n: nat) -> int
    decreases n,
{
    if n == 0 {
        1
    } else {
        256 * pow256((n - 1) as nat)
    }
}

proof fn lemma_pow256_bound(n: nat)
    requires
        n <= 8,
    ensures
        pow256(n) <= 0x1_0000_0000_0000_0000,
        n > 0 ==> pow256(n) == 256 * pow256((n - 1) as nat),
{
    reveal_with_fuel(pow256, 9);
}

proof fn lemma_le_value_shift(s: Seq<u8>, t: Seq<u8>, p: int, q: int, n: nat)
    requires
        0 <= q,
        q + n <= t.len(),
        forall|k: int| 0 <= k < n ==> #[trigger] s[p + k] == t[q + k],
    ensures
        le_value(s, p, n) == le_value(t, q, n),
    decreases n,
{
    if n > 0 {
        assert(s[p + 0] == t[q + 0]);
        assert forall|k: int| 0 <= k < n - 1 implies #[trigger] s[(p + 1) + k] == t[(q + 1) + k] by {
            assert(s[p + (k + 1)] == t[q + (k + 1)]);
        }
        lemma_le_value_shift(s, t, p + 1, q + 1, (n - 1) as nat);
    }
}

/// Relies on `core::str::from_utf8`: it succeeds exactly on valid UTF-8, and
/// the string it returns holds the same bytes.
#[verifier::external_body]
fn utf8_str<'a>(bytes: &'a [u8]) -> (r: Option<&'a str>)
    ensures
        r is Some <==> valid_utf8(bytes@),
        r is Some ==> r->Some_0.spec_bytes() == bytes@,
{
    core::str::from_utf8(bytes).ok()
}

/// A length-prefixed slice at `p`: a LEB128 `u32` length, then that many bytes.
pub open spec fn spec_slice(s: Seq<u8>, p: int, e: int) -> SpecResult<Seq<u8>> {
    match spec_leb(s, p, e, IntType::U32) {
        Ok((n, q)) => if q + n <= e {
            Ok((s.subrange(q, q + n), q + n))
        } else {
            Err((ErrorKind::EndOfFile, q))
        },
        Err(er) => Err(er),
    }
}

/// A length-prefixed UTF-8 string at `p`, as its bytes.
pub open spec fn spec_str(s: Seq<u8>, p: int, e: int) -> SpecResult<Seq<u8>> {
    match spec_slice(s, p, e) {
        Ok((b, q)) => if valid_utf8(b) {
            Ok((b, q))
        } else {
            Err((ErrorKind::InvalidUtf8, p))
        },
        Err(er) => Err(er),
    }
}

impl<'a> Reader<'a> {
    /// Reads a length-prefixed slice.
    pub fn read_slice(&mut self) -> (r: ParseResult<'a, &'a [u8]>)
        requires
            old(self).wf(),
        ensures
            final(self).follows(old(self)),
            match spec_slice(old(self).data(), old(self).pos(), old(self).limit()) {
                Ok((b, q)) => r is Ok && r->Ok_0@ == b && final(self).pos() == q,
                Err(er) => err_matches(r, er),
            },
    {
        let len = match self.read_len() {
            Ok(n) => n,
            Err(er) => return Err(er),
        };
        if self.end - self.idx < len {
            return Err(self.mark().into_error(ErrorKind::EndOfFile));
        }
        let slice = slice_subrange(self.bytes, self.idx, self.idx + len);
        self.idx = self.idx + len;
        Ok(slice)
    }

    /// Reads a length-prefixed UTF-8 string.
    pub fn read_str(&mut self) -> (r: ParseResult<'a, &'a str>)
        requires
            old(self).wf(),
        ensures
            final(self).follows(old(self)),
            match spec_str(old(self).data(), old(self).pos(), old(self).limit()) {
                Ok((b, q)) => r is Ok && r->Ok_0.spec_bytes() == b && final(self).pos() == q,
                Err(er) => err_matches(r, er),
            },
    {
        let mark = self.mark();
        let bytes = match self.read_slice() {
            Ok(b) => b,
            Err(er) => return Err(er),
        };
        match utf8_str(bytes) {
            Some(s) => Ok(s),
            None => Err(mark.into_error(ErrorKind::InvalidUtf8)),
        }
    }

    /// Reads the bytes up to the next `byte`, which is consumed too.
    pub fn read_until(&mut self, byte: u8) -> (r: ParseResult<'a, &'a [u8]>)
        requires
            old(self).wf(),
        ensures
            final(self).follows(old(self)),
            match find_byte(old(self).data(), old(self).pos(), old(self).limit(), byte) {
                Some(k) => r is Ok && r->Ok_0@ == old(self).data().subrange(old(self).pos(), k)
                    && final(self).pos() == k + 1,
                None => is_err_at(r, ErrorKind::EndOfFile, old(self).limit()),
            },
    {
        let mut k: usize = self.idx;
        while k < self.end
            invariant
                self.wf(),
                *self == *old(self),
                self.idx <= k <= self.end,
                find_byte(self.data(), self.pos(), self.limit(), byte) == find_byte(
                    self.data(),
                    k as int,
                    self.limit(),
                    byte,
                ),
            decreases self.end - k,
        {
            if self.bytes[k] == byte {
                let slice = slice_subrange(self.bytes, self.idx, k);
                self.idx = k + 1;
                return Ok(slice);
            }
            k = k + 1;
        }
        Err(Mark { bytes: self.bytes, idx: self.end }.into_error(ErrorKind::EndOfFile))
    }
}

impl<'a> Reader<'a> {
    /// The position of the cursor.
    pub fn position(&self) -> (r: usize)
        ensures
            r == self.pos(),
    {
        self.idx
    }

    /// The byte `k` bytes after the cursor.
    pub fn byte_at(&self, k: usize) -> (r: u8)
        requires
            self.wf(),
            self.pos() + k < self.limit(),
        ensures
            r == self.data()[self.pos() + k],
    {
        self.bytes[self.idx + k]
    }

    /// A mark `k` bytes after the cursor.
    pub fn mark_ahead(&self, k: usize) -> (r: Mark<'a>)
        requires
            self.wf(),
            self.pos() + k <= self.limit(),
        ensures
            r.pos() == self.pos() + k,
            r.data() == self.data(),
    {
        Mark { bytes: self.bytes, idx: self.idx + k }
    }

    /// A reader over `[start, end)` of the same input.
    pub fn window(&self, start: usize, end: usize) -> (r: Reader<'a>)
        requires
            self.wf(),
            start <= end <= self.limit(),
        ensures
            r.wf(),
            r.data() == self.data(),
            r.pos() == start,
            r.limit() == end,
    {
        Reader { bytes: self.bytes, idx: start, end }
    }
}

} // verus!
