use vstd::arithmetic::power2::{lemma2_to64, lemma2_to64_rest, pow2};
use vstd::prelude::*;

use crate::error::{err_matches, ErrorKind, IntType, ParseResult, SpecErr, SpecResult};
use crate::reader::Reader;

verus! {

/// `128` to the power `n`.
pub open spec fn pow128(n: nat) -> int
    decreases n,
{
    if n == 0 {
        1
    } else {
        128 * pow128((n - 1) as nat)
    }
}

/// The seven payload bits of a LEB128 byte.
pub open spec fn leb_group(b: u8) -> int {
    (b % 128) as int
}

/// Whether a LEB128 byte is followed by another one.
pub open spec fn leb_more(b: u8) -> bool {
    b >= 128
}

/// The number of bits of an integer type.
pub open spec fn int_bits(ty: IntType) -> nat {
    match ty {
        IntType::U8 | IntType::I8 => 8,
        IntType::U16 | IntType::I16 => 16,
        IntType::U32 | IntType::I32 => 32,
        IntType::U64 | IntType::I64 => 64,
        IntType::U128 | IntType::I128 => 128,
        IntType::Usize | IntType::Isize => usize_bits(),
    }
}

/// The number of bits of the platform word.
pub open spec fn usize_bits() -> nat {
    if usize::MAX == 0xFFFF_FFFF {
        32
    } else {
        64
    }
}

/// Whether an integer type is signed.
pub open spec fn int_signed(ty: IntType) -> bool {
    match ty {
        IntType::I8 | IntType::I16 | IntType::I32 | IntType::I64 | IntType::I128 | IntType::Isize => true,
        _ => false,
    }
}

/// The most bytes that a LEB128 integer of type `ty` may take.
pub open spec fn leb_max_len(ty: IntType) -> nat {
    (int_bits(ty) + 6) / 7
}

/// Whether `v` is a value of type `ty`.
pub open spec fn int_fits(v: int, ty: IntType) -> bool {
    if int_signed(ty) {
        -pow2((int_bits(ty) - 1) as nat) <= v < pow2((int_bits(ty) - 1) as nat)
    } else {
        0 <= v < pow2(int_bits(ty))
    }
}

/// The sum of the payloads of `s[p..p + n]`, the first byte holding the lowest bits.
pub open spec fn leb_sum(s: Seq<u8>, p: int, n: nat) -> int
    decreases n,
{
    if n == 0 {
        0
    } else {
        leb_sum(s, p, (n - 1) as nat) + leb_group(s[p + n - 1]) * pow128((n - 1) as nat)
    }
}

/// The value of the `n` bytes of a LEB128 integer at `p`: signed ones are
/// extended from bit 6 of their last byte.
pub open spec fn leb_value(s: Seq<u8>, p: int, n: nat, signed: bool) -> int {
    if signed && n > 0 && leb_group(s[p + n - 1]) >= 64 {
        leb_sum(s, p, n) - pow128(n)
    } else {
        leb_sum(s, p, n)
    }
}

/// How far a LEB128 integer at `p` in `s[..e]` extends, looking at byte `p + i`
/// and at most `k` bytes in all.
pub enum LebExtent {
    /// It ends after this many bytes.
    Len(nat),
    /// The input ends at this offset first.
    Eof(int),
    /// It would take more than `k` bytes.
    TooLong,
}

/// Scans a LEB128 integer from its byte `i` on.
pub open spec fn leb_scan(s: Seq<u8>, p: int, e: int, i: nat, k: nat) -> LebExtent
    decreases k - i,
{
    if p + i >= e {
        LebExtent::Eof(p + i)
    } else if !leb_more(s[p + i]) {
        LebExtent::Len(i + 1)
    } else if i + 1 >= k {
        LebExtent::TooLong
    } else {
        leb_scan(s, p, e, i + 1, k)
    }
}

/// The LEB128 integer of type `ty` at `p` in `s[..e]`: its value and the
/// position after it, or the error that decoding it gives.
pub open spec fn spec_leb(s: Seq<u8>, p: int, e: int, ty: IntType) -> SpecResult<int> {
    match leb_scan(s, p, e, 0, leb_max_len(ty)) {
        LebExtent::Len(n) => {
            let v = leb_value(s, p, n, int_signed(ty));
            if int_fits(v, ty) {
                Ok((v, p + n))
            } else {
                Err((ErrorKind::IntegerOverflow(ty), p))
            }
        },
        LebExtent::Eof(at) => Err((ErrorKind::EndOfFile, at)),
        LebExtent::TooLong => Err((ErrorKind::IntegerOverflow(ty), p)),
    }
}

proof fn lemma_scan_advances(s: Seq<u8>, p: int, e: int, i: nat, k: nat)
    ensures
        leb_scan(s, p, e, i, k) matches LebExtent::Len(n) ==> n >= 1,
    decreases k - i,
{
    if p + i < e && s[p + i] >= 128 && i + 1 < k {
        lemma_scan_advances(s, p, e, i + 1, k);
    }
}

/// A LEB128 integer takes at least one byte.
pub proof fn lemma_leb_advances(s: Seq<u8>, p: int, e: int, ty: IntType)
    ensures
        spec_leb(s, p, e, ty) matches Ok((_, q)) ==> q > p,
{
    lemma_scan_advances(s, p, e, 0, leb_max_len(ty));
}

/// The integer that a sign and a magnitude stand for.
pub open spec fn signed_value(neg: bool, mag: u128) -> int {
    if neg {
        -(mag as int)
    } else {
        mag as int
    }
}

/// `r`, a sign and a magnitude, and the reader after it are what `spec` says.
pub open spec fn leb_agrees(r: ParseResult<(bool, u128)>, rd: Reader, spec: SpecResult<int>) -> bool {
    match spec {
        Ok((v, q)) => {
            &&& r is Ok
            &&& signed_value(r->Ok_0.0, r->Ok_0.1) == v
            &&& (r->Ok_0.0 ==> v < 0)
            &&& rd.pos() == q
        },
        Err(e) => err_matches(r, e),
    }
}

proof fn lemma_pow128_bound(n: nat)
    requires
        n <= 18,
    ensures
        1 <= pow128(n) <= pow128(18),
        pow128(18) == 0x4000_0000_0000_0000_0000_0000_0000_0000,
        n + 1 <= 18 ==> pow128(n + 1) <= pow128(18),
        pow128(n + 1) == 128 * pow128(n),
        pow128(17) == 0x80_0000_0000_0000_0000_0000_0000_0000,
        n <= 17 ==> pow128(n) <= pow128(17),
    decreases n,
{
    reveal_with_fuel(pow128, 20);
    lemma_pow128_step(n);
    if n + 1 <= 18 {
        lemma_pow128_step(n + 1);
    }
    if n <= 17 {
        lemma_pow128_step17(n);
    }
}

proof fn lemma_pow128_step17(n: nat)
    requires
        n <= 17,
    ensures
        pow128(n) <= pow128(17),
    decreases 17 - n,
{
    reveal_with_fuel(pow128, 2);
    lemma_pow128_step(n);
    if n + 1 <= 17 {
        lemma_pow128_step17(n + 1);
    }
}

proof fn lemma_pow128_step(n: nat)
    requires
        n <= 18,
    ensures
        pow128(n) <= pow128(18),
        1 <= pow128(n),
    decreases 18 - n,
{
    reveal_with_fuel(pow128, 20);
    if n + 1 <= 18 {
        lemma_pow128_step(n + 1);
    }
}

proof fn lemma_wide_pow2()
    ensures
        pow2(127) == 0x8000_0000_0000_0000_0000_0000_0000_0000,
        pow2(128) == 0x1_0000_0000_0000_0000_0000_0000_0000_0000,
        usize::MAX == 0xFFFF_FFFF ==> pow2(usize_bits()) == 0x1_0000_0000 && pow2((usize_bits() - 1) as nat) == 0x8000_0000,
        usize::MAX != 0xFFFF_FFFF ==> pow2(usize_bits()) == 0x1_0000_0000_0000_0000 && pow2((usize_bits() - 1) as nat) == 0x8000_0000_0000_0000,
        usize::MAX == 0xFFFF_FFFF || usize::MAX == 0xFFFF_FFFF_FFFF_FFFF,
        isize::MAX == usize::MAX / 2,
{
    lemma2_to64();
    lemma2_to64_rest();
    vstd::arithmetic::power2::lemma_pow2_adds(64, 63);
    vstd::arithmetic::power2::lemma_pow2_adds(64, 64);
}

impl IntType {
    /// The most bytes that a LEB128 integer of this type may take.
    fn max_len(&self) -> (r: usize)
        ensures
            r == leb_max_len(*self),
            1 <= r <= 19,
    {
        match self {
            IntType::U8 | IntType::I8 => 2,
            IntType::U16 | IntType::I16 => 3,
            IntType::U32 | IntType::I32 => 5,
            IntType::U64 | IntType::I64 => 10,
            IntType::U128 | IntType::I128 => 19,
            IntType::Usize | IntType::Isize => if usize::MAX == 0xFFFF_FFFF { 5 } else { 10 },
        }
    }

    /// The largest value of this type.
    fn max_value(&self) -> (r: u128)
        ensures
            int_signed(*self) ==> r == pow2((int_bits(*self) - 1) as nat) - 1,
            !int_signed(*self) ==> r == pow2(int_bits(*self)) - 1,
    {
        proof {
            lemma2_to64();
            lemma2_to64_rest();
            lemma_wide_pow2();
        }
        match self {
            IntType::U8 => 0xFF,
            IntType::U16 => 0xFFFF,
            IntType::U32 => 0xFFFF_FFFF,
            IntType::U64 => 0xFFFF_FFFF_FFFF_FFFF,
            IntType::U128 => 0xFFFF_FFFF_FFFF_FFFF_FFFF_FFFF_FFFF_FFFF,
            IntType::Usize => usize::MAX as u128,
            IntType::I8 => 0x7F,
            IntType::I16 => 0x7FFF,
            IntType::I32 => 0x7FFF_FFFF,
            IntType::I64 => 0x7FFF_FFFF_FFFF_FFFF,
            IntType::I128 => 0x7FFF_FFFF_FFFF_FFFF_FFFF_FFFF_FFFF_FFFF,
            IntType::Isize => isize::MAX as u128,
        }
    }

    /// The magnitude of the smallest value of a signed type.
    fn min_magnitude(&self) -> (r: u128)
        ensures
            int_signed(*self) ==> r == pow2((int_bits(*self) - 1) as nat),
    {
        proof {
            lemma2_to64();
            lemma2_to64_rest();
            lemma_wide_pow2();
        }
        match self {
            IntType::I8 => 0x80,
            IntType::I16 => 0x8000,
            IntType::I32 => 0x8000_0000,
            IntType::I64 => 0x8000_0000_0000_0000,
            IntType::I128 => 0x8000_0000_0000_0000_0000_0000_0000_0000,
            IntType::Isize => isize::MAX as u128 + 1,
            _ => 0,
        }
    }

    fn is_signed(&self) -> (r: bool)
        ensures
            r == int_signed(*self),
    {
        match self {
            IntType::I8 | IntType::I16 | IntType::I32 | IntType::I64 | IntType::I128 | IntType::Isize => true,
            _ => false,
        }
    }
}

/// Decodes one LEB128 integer of type `ty`, as a sign and a magnitude.
pub fn decode_leb<'a>(reader: &mut Reader<'a>, ty: IntType) -> (r: ParseResult<'a, (bool, u128)>)
    requires
        old(reader).wf(),
    ensures
        final(reader).follows(old(reader)),
        leb_agrees(
            r,
            *final(reader),
            spec_leb(old(reader).data(), old(reader).pos(), old(reader).limit(), ty),
        ),
{
    let ghost s = reader.data();
    let ghost p = reader.pos();
    let ghost e = reader.limit();
    let mark = reader.mark();
    let k = ty.max_len();
    let mut result: u128 = 0;
    let mut pow: u128 = 1;
    let mut i: usize = 0;
    proof {
        reveal_with_fuel(pow128, 1);
        reveal_with_fuel(leb_sum, 1);
        lemma2_to64();
        lemma2_to64_rest();
        lemma_wide_pow2();
    }
    loop
        invariant
            reader.follows(old(reader)),
            s == old(reader).data(),
            e == old(reader).limit(),
            p == old(reader).pos(),
            p == mark.pos(),
            reader.pos() == p + i,
            i < k,
            k == leb_max_len(ty),
            k <= 19,
            result == leb_sum(s, p, i as nat),
            pow == pow128(i as nat),
            result < pow,
            leb_scan(s, p, e, 0, k as nat) == leb_scan(s, p, e, i as nat, k as nat),
            pow2(128) == 0x1_0000_0000_0000_0000_0000_0000_0000_0000,
            pow2(127) == 0x8000_0000_0000_0000_0000_0000_0000_0000,
            int_bits(ty) <= 128,
            int_bits(ty) >= 8,
            pow2(int_bits(ty)) <= pow2(128),
            pow2((int_bits(ty) - 1) as nat) <= pow2(127),
        decreases k - i,
    {
        let byte = match reader.read_u8() {
            Ok(b) => b,
            Err(err) => {
                assert(leb_scan(s, p, e, i as nat, k as nat) == LebExtent::Eof(p + i));
                return Err(err);
            },
        };
        let g: u128 = (byte % 128) as u128;
        proof {
            lemma_pow128_bound(i as nat);
            assert(leb_sum(s, p, (i + 1) as nat) == result + g * pow);
        }
        proof {
            assert(g * pow <= 127 * pow) by (nonlinear_arith)
                requires
                    g < 128,
            ;
            assert((128 - g) * pow >= pow) by (nonlinear_arith)
                requires
                    g < 128,
                    pow >= 1,
            ;
            assert((128 - g) * pow <= 64 * pow || g < 64) by (nonlinear_arith)
                requires
                    g < 128,
                    pow >= 1,
            ;
            assert(g <= 3 ==> g * pow <= 3 * pow) by (nonlinear_arith);
            assert(g >= 126 ==> (128 - g) * pow <= 2 * pow) by (nonlinear_arith)
                requires
                    g < 128,
            ;
            assert(g >= 4 ==> g * pow >= 4 * pow) by (nonlinear_arith);
            assert(g < 126 ==> (128 - g) * pow >= 3 * pow) by (nonlinear_arith);
            assert((128 - g) * pow == 128 * pow - g * pow) by (nonlinear_arith);
            assert(leb_group(s[p + (i + 1) - 1]) == g);
            assert(leb_value(s, p, (i + 1) as nat, int_signed(ty)) == if int_signed(ty) && g >= 64 {
                result + g * pow - 128 * pow
            } else {
                result + g * pow
            });
        }
        if byte < 128 {
            proof {
                assert(leb_scan(s, p, e, i as nat, k as nat) == LebExtent::Len((i + 1) as nat));
            }
            if !ty.is_signed() || g < 64 {
                if i == 18 && g >= 4 {
                    proof {
                        assert(result + g * pow >= pow2(128)) by (nonlinear_arith)
                            requires
                                g >= 4,
                                pow == 0x4000_0000_0000_0000_0000_0000_0000_0000,
                                pow2(128) == 0x1_0000_0000_0000_0000_0000_0000_0000_0000,
                                result >= 0,
                        ;
                    }
                    return Err(mark.into_error(ErrorKind::IntegerOverflow(ty)));
                }
                let v = result + g * pow;
                if v > ty.max_value() {
                    return Err(mark.into_error(ErrorKind::IntegerOverflow(ty)));
                }
                return Ok((false, v));
            } else {
                if i == 18 && g < 126 {
                    return Err(mark.into_error(ErrorKind::IntegerOverflow(ty)));
                }
                proof {
                    assert(pow128((i + 1) as nat) == 128 * pow);
                }
                let mag = (128 - g) * pow - result;
                if mag > ty.min_magnitude() {
                    return Err(mark.into_error(ErrorKind::IntegerOverflow(ty)));
                }
                return Ok((true, mag));
            }
        }
        if i + 1 >= k {
            return Err(mark.into_error(ErrorKind::IntegerOverflow(ty)));
        }
        proof {
            assert(result + g * pow < 128 * pow) by (nonlinear_arith)
                requires
                    result < pow,
                    g < 128,
            ;
        }
        result = result + g * pow;
        pow = pow * 128;
        i = i + 1;
    }
}

/// Integer types that can be read as LEB128.
pub trait Leb128: Sized {
    /// The integer type that `Self` is.
    spec fn int_type() -> IntType;

    /// The value of `v` as a mathematical integer.
    spec fn to_int(v: Self) -> int;

    /// Decodes one LEB128 integer of this type.
    fn decode<'a>(reader: &mut Reader<'a>) -> (r: ParseResult<'a, Self>)
        requires
            old(reader).wf(),
        ensures
            final(reader).follows(old(reader)),
            match spec_leb(
                old(reader).data(),
                old(reader).pos(),
                old(reader).limit(),
                Self::int_type(),
            ) {
                Ok((v, q)) => r is Ok && Self::to_int(r->Ok_0) == v && final(reader).pos() == q,
                Err(e) => err_matches(r, e),
            },
    ;
}

impl Leb128 for u8 {
    open spec fn int_type() -> IntType {
        IntType::U8
    }

    open spec fn to_int(v: u8) -> int {
        v as int
    }

    fn decode<'a>(reader: &mut Reader<'a>) -> (r: ParseResult<'a, u8>) {
        proof {
            lemma2_to64();
            lemma2_to64_rest();
            lemma_wide_pow2();
        }
        match decode_leb(reader, IntType::U8) {
            Ok((neg, mag)) => {
                Ok(mag as u8)
            },
            Err(e) => Err(e),
        }
    }
}

impl Leb128 for u16 {
    open spec fn int_type() -> IntType {
        IntType::U16
    }

    open spec fn to_int(v: u16) -> int {
        v as int
    }

    fn decode<'a>(reader: &mut Reader<'a>) -> (r: ParseResult<'a, u16>) {
        proof {
            lemma2_to64();
            lemma2_to64_rest();
            lemma_wide_pow2();
        }
        match decode_leb(reader, IntType::U16) {
            Ok((neg, mag)) => {
                Ok(mag as u16)
            },
            Err(e) => Err(e),
        }
    }
}

impl Leb128 for u32 {
    open spec fn int_type() -> IntType {
        IntType::U32
    }

    open spec fn to_int(v: u32) -> int {
        v as int
    }

    fn decode<'a>(reader: &mut Reader<'a>) -> (r: ParseResult<'a, u32>) {
        proof {
            lemma2_to64();
            lemma2_to64_rest();
            lemma_wide_pow2();
        }
        match decode_leb(reader, IntType::U32) {
            Ok((neg, mag)) => {
                Ok(mag as u32)
            },
            Err(e) => Err(e),
        }
    }
}

impl Leb128 for u64 {
    open spec fn int_type() -> IntType {
        IntType::U64
    }

    open spec fn to_int(v: u64) -> int {
        v as int
    }

    fn decode<'a>(reader: &mut Reader<'a>) -> (r: ParseResult<'a, u64>) {
        proof {
            lemma2_to64();
            lemma2_to64_rest();
            lemma_wide_pow2();
        }
        match decode_leb(reader, IntType::U64) {
            Ok((neg, mag)) => {
                Ok(mag as u64)
            },
            Err(e) => Err(e),
        }
    }
}

impl Leb128 for u128 {
    open spec fn int_type() -> IntType {
        IntType::U128
    }

    open spec fn to_int(v: u128) -> int {
        v as int
    }

    fn decode<'a>(reader: &mut Reader<'a>) -> (r: ParseResult<'a, u128>) {
        proof {
            lemma2_to64();
            lemma2_to64_rest();
            lemma_wide_pow2();
        }
        match decode_leb(reader, IntType::U128) {
            Ok((neg, mag)) => {
                Ok(mag as u128)
            },
            Err(e) => Err(e),
        }
    }
}

impl Leb128 for usize {
    open spec fn int_type() -> IntType {
        IntType::Usize
    }

    open spec fn to_int(v: usize) -> int {
        v as int
    }

    fn decode<'a>(reader: &mut Reader<'a>) -> (r: ParseResult<'a, usize>) {
        proof {
            lemma2_to64();
            lemma2_to64_rest();
            lemma_wide_pow2();
        }
        match decode_leb(reader, IntType::Usize) {
            Ok((neg, mag)) => {
                Ok(mag as usize)
            },
            Err(e) => Err(e),
        }
    }
}

impl Leb128 for i8 {
    open spec fn int_type() -> IntType {
        IntType::I8
    }

    open spec fn to_int(v: i8) -> int {
        v as int
    }

    fn decode<'a>(reader: &mut Reader<'a>) -> (r: ParseResult<'a, i8>) {
        proof {
            lemma2_to64();
            lemma2_to64_rest();
            lemma_wide_pow2();
        }
        match decode_leb(reader, IntType::I8) {
            Ok((neg, mag)) => {
                if neg { Ok((0 - (mag as i128)) as i8) } else { Ok(mag as i8) }
            },
            Err(e) => Err(e),
        }
    }
}

impl Leb128 for i16 {
    open spec fn int_type() -> IntType {
        IntType::I16
    }

    open spec fn to_int(v: i16) -> int {
        v as int
    }

    fn decode<'a>(reader: &mut Reader<'a>) -> (r: ParseResult<'a, i16>) {
        proof {
            lemma2_to64();
            lemma2_to64_rest();
            lemma_wide_pow2();
        }
        match decode_leb(reader, IntType::I16) {
            Ok((neg, mag)) => {
                if neg { Ok((0 - (mag as i128)) as i16) } else { Ok(mag as i16) }
            },
            Err(e) => Err(e),
        }
    }
}

impl Leb128 for i32 {
    open spec fn int_type() -> IntType {
        IntType::I32
    }

    open spec fn to_int(v: i32) -> int {
        v as int
    }

    fn decode<'a>(reader: &mut Reader<'a>) -> (r: ParseResult<'a, i32>) {
        proof {
            lemma2_to64();
            lemma2_to64_rest();
            lemma_wide_pow2();
        }
        match decode_leb(reader, IntType::I32) {
            Ok((neg, mag)) => {
                if neg { Ok((0 - (mag as i128)) as i32) } else { Ok(mag as i32) }
            },
            Err(e) => Err(e),
        }
    }
}

impl Leb128 for i64 {
    open spec fn int_type() -> IntType {
        IntType::I64
    }

    open spec fn to_int(v: i64) -> int {
        v as int
    }

    fn decode<'a>(reader: &mut Reader<'a>) -> (r: ParseResult<'a, i64>) {
        proof {
            lemma2_to64();
            lemma2_to64_rest();
            lemma_wide_pow2();
        }
        match decode_leb(reader, IntType::I64) {
            Ok((neg, mag)) => {
                if neg { Ok((0 - (mag as i128)) as i64) } else { Ok(mag as i64) }
            },
            Err(e) => Err(e),
        }
    }
}

impl Leb128 for isize {
    open spec fn int_type() -> IntType {
        IntType::Isize
    }

    open spec fn to_int(v: isize) -> int {
        v as int
    }

    fn decode<'a>(reader: &mut Reader<'a>) -> (r: ParseResult<'a, isize>) {
        proof {
            lemma2_to64();
            lemma2_to64_rest();
            lemma_wide_pow2();
        }
        match decode_leb(reader, IntType::Isize) {
            Ok((neg, mag)) => {
                if neg { Ok((0 - (mag as i128)) as isize) } else { Ok(mag as isize) }
            },
            Err(e) => Err(e),
        }
    }
}

impl Leb128 for i128 {
    open spec fn int_type() -> IntType {
        IntType::I128
    }

    open spec fn to_int(v: i128) -> int {
        v as int
    }

    fn decode<'a>(reader: &mut Reader<'a>) -> (r: ParseResult<'a, i128>) {
        proof {
            lemma2_to64();
            lemma2_to64_rest();
            lemma_wide_pow2();
        }
        match decode_leb(reader, IntType::I128) {
            Ok((neg, mag)) => {
                if !neg {
                    Ok(mag as i128)
                } else if mag == 0x8000_0000_0000_0000_0000_0000_0000_0000 {
                    Ok(i128::MIN)
                } else {
                    Ok(0 - (mag as i128))
                }
            },
            Err(e) => Err(e),
        }
    }
}

impl<'a> Reader<'a> {
    /// Reads one LEB128 integer of type `T`.
    pub fn read_int<T: Leb128>(&mut self) -> (r: ParseResult<'a, T>)
        requires
            old(self).wf(),
        ensures
            final(self).follows(old(self)),
            match spec_leb(old(self).data(), old(self).pos(), old(self).limit(), T::int_type()) {
                Ok((v, q)) => r is Ok && T::to_int(r->Ok_0) == v && final(self).pos() == q,
                Err(e) => err_matches(r, e),
            },
    {
        T::decode(self)
    }

    /// Reads a length: a LEB128 `u32`.
    pub fn read_len(&mut self) -> (r: ParseResult<'a, usize>)
        requires
            old(self).wf(),
        ensures
            final(self).follows(old(self)),
            match spec_leb(old(self).data(), old(self).pos(), old(self).limit(), IntType::U32) {
                Ok((v, q)) => r is Ok && r->Ok_0 == v && final(self).pos() == q,
                Err(e) => err_matches(r, e),
            },
    {
        match self.read_int::<u32>() {
            Ok(v) => Ok(v as usize),
            Err(e) => Err(e),
        }
    }
}

/// The shortest LEB128 encoding of the unsigned `x`.
pub open spec fn leb_encode_unsigned(x: nat) -> Seq<u8>
    decreases x,
{
    if x < 128 {
        seq![x as u8]
    } else {
        seq![(x % 128 + 128) as u8] + leb_encode_unsigned(x / 128)
    }
}

/// The shortest LEB128 encoding of the signed `x`.
pub open spec fn leb_encode_signed(x: int) -> Seq<u8>
    decreases (if x < 0 { -x } else { x }),
{
    if -64 <= x < 64 {
        seq![(x % 128) as u8]
    } else {
        seq![(x % 128 + 128) as u8] + leb_encode_signed(x / 128)
    }
}

proof fn lemma_leb_sum_cons(s: Seq<u8>, p: int, n: nat)
    ensures
        leb_sum(s, p, n + 1) == leb_group(s[p]) + 128 * leb_sum(s, p + 1, n),
    decreases n,
{
    reveal_with_fuel(pow128, 2);
    if n > 0 {
        lemma_leb_sum_cons(s, p, (n - 1) as nat);
        assert(pow128(n) == 128 * pow128((n - 1) as nat));
        assert(s[p + (n + 1) - 1] == s[(p + 1) + n - 1]);
        let a = leb_sum(s, p + 1, (n - 1) as nat);
        let g = leb_group(s[(p + 1) + n - 1]);
        let w = pow128((n - 1) as nat);
        assert(leb_sum(s, p, n + 1) == leb_sum(s, p, n) + g * pow128(n));
        assert(leb_sum(s, p + 1, n) == a + g * w);
        assert(leb_sum(s, p, n) == leb_group(s[p]) + 128 * a);
        assert(128 * a + g * (128 * w) == 128 * (a + g * w)) by (nonlinear_arith);
    } else {
        assert(leb_sum(s, p, 1) == leb_sum(s, p, 0) + leb_group(s[p + 1 - 1]) * pow128(0));
    }
}

proof fn lemma_leb_scan_len(s: Seq<u8>, p: int, e: int, i: nat, k: nat, n: nat)
    requires
        i < n <= k,
        p + n <= e,
        forall|j: int| 0 <= j < n - 1 ==> leb_more(#[trigger] s[p + j]),
        !leb_more(s[p + n - 1]),
    ensures
        leb_scan(s, p, e, i, k) == LebExtent::Len(n),
    decreases n - i,
{
    if i + 1 < n {
        assert(leb_more(s[p + i]));
        lemma_leb_scan_len(s, p, e, i + 1, k, n);
    }
}

proof fn lemma_leb_unsigned_bytes(s: Seq<u8>, p: int, x: nat)
    requires
        0 <= p,
        p + leb_encode_unsigned(x).len() <= s.len(),
        s.subrange(p, p + leb_encode_unsigned(x).len()) == leb_encode_unsigned(x),
    ensures
        leb_encode_unsigned(x).len() >= 1,
        leb_sum(s, p, leb_encode_unsigned(x).len()) == x,
        forall|j: int| 0 <= j < leb_encode_unsigned(x).len() - 1 ==> leb_more(#[trigger] s[p + j]),
        !leb_more(s[p + leb_encode_unsigned(x).len() - 1]),
    decreases x,
{
    let enc = leb_encode_unsigned(x);
    assert(s[p] == s.subrange(p, p + enc.len())[0]);
    if x < 128 {
        reveal_with_fuel(leb_sum, 2);
        reveal_with_fuel(pow128, 1);
    } else {
        let rest = leb_encode_unsigned(x / 128);
        assert(enc == seq![(x % 128 + 128) as u8] + rest);
        assert(s.subrange(p + 1, p + 1 + rest.len()) =~= rest) by {
            assert forall|j: int| 0 <= j < rest.len() implies s.subrange(p + 1, p + 1 + rest.len())[j] == rest[j] by {
                assert(s[p + 1 + j] == s.subrange(p, p + enc.len())[1 + j]);
            }
        }
        lemma_leb_unsigned_bytes(s, p + 1, x / 128);
        lemma_leb_sum_cons(s, p, rest.len());
        assert forall|j: int| 0 <= j < enc.len() - 1 implies leb_more(#[trigger] s[p + j]) by {
            if j > 0 {
                assert(s[p + j] == s[(p + 1) + (j - 1)]);
            }
        }
        assert(s[p + enc.len() - 1] == s[(p + 1) + rest.len() - 1]);
    }
}

proof fn lemma_leb_signed_bytes(s: Seq<u8>, p: int, x: int)
    requires
        0 <= p,
        p + leb_encode_signed(x).len() <= s.len(),
        s.subrange(p, p + leb_encode_signed(x).len()) == leb_encode_signed(x),
    ensures
        leb_encode_signed(x).len() >= 1,
        leb_value(s, p, leb_encode_signed(x).len(), true) == x,
        forall|j: int| 0 <= j < leb_encode_signed(x).len() - 1 ==> leb_more(#[trigger] s[p + j]),
        !leb_more(s[p + leb_encode_signed(x).len() - 1]),
    decreases (if x < 0 { -x } else { x }),
{
    let enc = leb_encode_signed(x);
    assert(s[p] == s.subrange(p, p + enc.len())[0]);
    if -64 <= x < 64 {
        reveal_with_fuel(leb_sum, 2);
        reveal_with_fuel(pow128, 2);
        assert(x % 128 == if x >= 0 { x } else { x + 128 }) by (nonlinear_arith)
            requires
                -64 <= x < 64,
        ;
        assert(s[p] == (x % 128) as u8);
        assert(leb_group(s[p]) == x % 128);
        assert(leb_sum(s, p, 1) == leb_group(s[p + 1 - 1]) * pow128(0));
        assert(pow128(1) == 128);
    } else {
        let rest = leb_encode_signed(x / 128);
        assert(enc == seq![(x % 128 + 128) as u8] + rest);
        assert(s.subrange(p + 1, p + 1 + rest.len()) =~= rest) by {
            assert forall|j: int| 0 <= j < rest.len() implies s.subrange(p + 1, p + 1 + rest.len())[j] == rest[j] by {
                assert(s[p + 1 + j] == s.subrange(p, p + enc.len())[1 + j]);
            }
        }
        lemma_leb_signed_bytes(s, p + 1, x / 128);
        let n = rest.len();
        lemma_leb_sum_cons(s, p, n);
        assert(s[p + (n + 1) - 1] == s[(p + 1) + n - 1]);
        reveal_with_fuel(pow128, 2);
        assert(pow128(n + 1) == 128 * pow128(n));
        assert forall|j: int| 0 <= j < enc.len() - 1 implies leb_more(#[trigger] s[p + j]) by {
            if j > 0 {
                assert(s[p + j] == s[(p + 1) + (j - 1)]);
            }
        }
        let sum = leb_sum(s, p + 1, n);
        let w = pow128(n);
        let g0 = leb_group(s[p]);
        assert(s[p] == (x % 128 + 128) as u8);
        assert(g0 == x % 128);
        assert(leb_sum(s, p, n + 1) == g0 + 128 * sum);
        let neg = leb_group(s[(p + 1) + n - 1]) >= 64;
        assert(leb_group(s[p + (n + 1) - 1]) >= 64 <==> neg);
        if neg {
            assert(leb_value(s, p + 1, n, true) == sum - w);
            assert(leb_value(s, p, n + 1, true) == g0 + 128 * sum - 128 * w);
            assert(128 * sum - 128 * w == 128 * (sum - w)) by (nonlinear_arith);
        } else {
            assert(leb_value(s, p + 1, n, true) == sum);
            assert(leb_value(s, p, n + 1, true) == g0 + 128 * sum);
        }
        assert(x == x % 128 + 128 * (x / 128)) by (nonlinear_arith);
    }
}

proof fn lemma_leb_unsigned_len(x: nat, m: nat)
    requires
        m >= 1,
        x < pow128(m),
    ensures
        leb_encode_unsigned(x).len() <= m,
    decreases x,
{
    reveal_with_fuel(pow128, 2);
    if x >= 128 {
        if m == 1 {
            assert(pow128(1) == 128);
        } else {
            assert(pow128(m) == 128 * pow128((m - 1) as nat));
            assert(x / 128 < pow128((m - 1) as nat)) by (nonlinear_arith)
                requires
                    x < 128 * pow128((m - 1) as nat),
            ;
            lemma_leb_unsigned_len(x / 128, (m - 1) as nat);
        }
    }
}

proof fn lemma_leb_signed_len(x: int, m: nat)
    requires
        m >= 1,
        -64 * pow128((m - 1) as nat) <= x < 64 * pow128((m - 1) as nat),
    ensures
        leb_encode_signed(x).len() <= m,
    decreases (if x < 0 { -x } else { x }),
{
    reveal_with_fuel(pow128, 2);
    if !(-64 <= x < 64) {
        if m == 1 {
            assert(pow128(0) == 1);
        } else {
            let w = pow128((m - 2) as nat);
            assert(pow128((m - 1) as nat) == 128 * w);
            assert(-64 * w <= x / 128 < 64 * w) by (nonlinear_arith)
                requires
                    -64 * (128 * w) <= x < 64 * (128 * w),
            ;
            lemma_leb_signed_len(x / 128, (m - 1) as nat);
        }
    }
}

proof fn lemma_leb_max_len_bounds(ty: IntType)
    ensures
        leb_max_len(ty) >= 1,
        pow2(int_bits(ty)) <= pow128(leb_max_len(ty)),
        pow2((int_bits(ty) - 1) as nat) <= 64 * pow128((leb_max_len(ty) - 1) as nat),
{
    lemma2_to64();
    lemma2_to64_rest();
    lemma_wide_pow2();
    reveal_with_fuel(pow128, 20);
}

/// Decoding the shortest LEB128 encoding of any `x` of an unsigned type
/// gives back `x`, and ends right after the encoding, whatever follows it.
pub proof fn lemma_leb_round_trip_unsigned(s: Seq<u8>, p: int, e: int, ty: IntType, x: nat)
    requires
        !int_signed(ty),
        x < pow2(int_bits(ty)),
        0 <= p,
        p + leb_encode_unsigned(x).len() <= e <= s.len(),
        s.subrange(p, p + leb_encode_unsigned(x).len()) == leb_encode_unsigned(x),
    ensures
        spec_leb(s, p, e, ty) == Ok::<(int, int), SpecErr>((x as int, p + leb_encode_unsigned(x).len())),
{
    let n = leb_encode_unsigned(x).len();
    lemma_leb_max_len_bounds(ty);
    lemma_leb_unsigned_len(x, leb_max_len(ty));
    lemma_leb_unsigned_bytes(s, p, x);
    lemma_leb_scan_len(s, p, e, 0, leb_max_len(ty), n);
}

/// Decoding the shortest LEB128 encoding of any `x` of a signed type gives
/// back `x`, and ends right after the encoding, whatever follows it.
pub proof fn lemma_leb_round_trip_signed(s: Seq<u8>, p: int, e: int, ty: IntType, x: int)
    requires
        int_signed(ty),
        -pow2((int_bits(ty) - 1) as nat) <= x < pow2((int_bits(ty) - 1) as nat),
        0 <= p,
        p + leb_encode_signed(x).len() <= e <= s.len(),
        s.subrange(p, p + leb_encode_signed(x).len()) == leb_encode_signed(x),
    ensures
        spec_leb(s, p, e, ty) == Ok::<(int, int), SpecErr>((x, p + leb_encode_signed(x).len())),
{
    let n = leb_encode_signed(x).len();
    lemma_leb_max_len_bounds(ty);
    lemma_leb_signed_len(x, leb_max_len(ty));
    lemma_leb_signed_bytes(s, p, x);
    lemma_leb_scan_len(s, p, e, 0, leb_max_len(ty), n);
}

} // verus!
