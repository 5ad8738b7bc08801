//! Integer literals: `27`, `0x7F`, `0b101010u8`, `5_000_000i64`.

use crate::err::{err_at, err_none, err_span, perr_at, perr_none, perr_span, ErrorModel, ParseError, ParseErrorKind};
use crate::scan::{
    end_hex_digits, hex_digit_value, hex_or_underscore, hex_value, is_dec_digit, lemma_run_end,
    lemma_run_end_at, run_end,
};
use crate::sealed::Sealed;
use crate::textutil::{lemma_ascii_boundary, lemma_ascii_text_bytes, substr};
use crate::{bytes_of, Buffer};
use vstd::prelude::*;
use vstd::string::StringSliceAdditionalSpecFns;

verus! {

/// The bases in which an integer can be specified.
#[derive(Debug, Clone, Copy, PartialEq, Eq, Structural)]
pub enum IntegerBase {
    Binary,
    Octal,
    Decimal,
    Hexadecimal,
}

impl IntegerBase {
    /// The radix of the base: 2, 8, 10 or 16.
    pub open spec fn radix(self) -> int {
        match self {
            IntegerBase::Binary => 2,
            IntegerBase::Octal => 8,
            IntegerBase::Decimal => 10,
            IntegerBase::Hexadecimal => 16,
        }
    }

    /// Digits valid in this base, and `_`.
    pub open spec fn digit_or_underscore(self) -> spec_fn(u8) -> bool {
        |b: u8|
            b == 0x5f || match hex_value(b) {
                Some(d) => (d as int) < self.radix(),
                None => false,
            }
    }
}

/// All possible integer type suffixes.
#[derive(Debug, Clone, Copy, PartialEq, Eq, Structural)]
pub enum IntegerType {
    U8,
    U16,
    U32,
    U64,
    U128,
    Usize,
    I8,
    I16,
    I32,
    I64,
    I128,
    Isize,
}

impl IntegerType {
    /// Returns the type corresponding to the given suffix (e.g. `"u8"` is
    /// mapped to `Self::U8`). If the suffix is not a valid integer type,
    /// `None` is returned.
    pub fn from_suffix(suffix: &str) -> (r: Option<Self>)
        ensures
            r == integer_type_of(suffix.spec_bytes()),
    {
        let b = suffix.as_bytes();
        proof {
            assert(b@.subrange(0, b@.len() as int) =~= b@);
        }
        integer_type_at(b, 0)
    }

    /// Returns the suffix for this type, e.g. `"u8"` for `Self::U8`.
    pub fn suffix(self) -> (r: &'static str)
        ensures
            r.spec_bytes() == suffix_bytes(self),
    {
        let r = match self {
            IntegerType::U8 => {
                proof { reveal_strlit("u8"); }
                "u8"
            },
            IntegerType::U16 => {
                proof { reveal_strlit("u16"); }
                "u16"
            },
            IntegerType::U32 => {
                proof { reveal_strlit("u32"); }
                "u32"
            },
            IntegerType::U64 => {
                proof { reveal_strlit("u64"); }
                "u64"
            },
            IntegerType::U128 => {
                proof { reveal_strlit("u128"); }
                "u128"
            },
            IntegerType::Usize => {
                proof { reveal_strlit("usize"); }
                "usize"
            },
            IntegerType::I8 => {
                proof { reveal_strlit("i8"); }
                "i8"
            },
            IntegerType::I16 => {
                proof { reveal_strlit("i16"); }
                "i16"
            },
            IntegerType::I32 => {
                proof { reveal_strlit("i32"); }
                "i32"
            },
            IntegerType::I64 => {
                proof { reveal_strlit("i64"); }
                "i64"
            },
            IntegerType::I128 => {
                proof { reveal_strlit("i128"); }
                "i128"
            },
            IntegerType::Isize => {
                proof { reveal_strlit("isize"); }
                "isize"
            },
        };
        proof {
            lemma_ascii_text_bytes(r);
            assert(r.spec_bytes() =~= suffix_bytes(self));
        }
        r
    }
}

impl std::str::FromStr for IntegerType {
    type Err = ();

    fn from_str(s: &str) -> Result<Self, ()> {
        match Self::from_suffix(s) {
            Some(t) => Ok(t),
            None => Err(()),
        }
    }
}

/// The spelling of an integer type suffix, as bytes.
pub open spec fn suffix_bytes(t: IntegerType) -> Seq<u8> {
    match t {
        IntegerType::U8 => seq![0x75, 0x38],
        IntegerType::U16 => seq![0x75, 0x31, 0x36],
        IntegerType::U32 => seq![0x75, 0x33, 0x32],
        IntegerType::U64 => seq![0x75, 0x36, 0x34],
        IntegerType::U128 => seq![0x75, 0x31, 0x32, 0x38],
        IntegerType::Usize => seq![0x75, 0x73, 0x69, 0x7a, 0x65],
        IntegerType::I8 => seq![0x69, 0x38],
        IntegerType::I16 => seq![0x69, 0x31, 0x36],
        IntegerType::I32 => seq![0x69, 0x33, 0x32],
        IntegerType::I64 => seq![0x69, 0x36, 0x34],
        IntegerType::I128 => seq![0x69, 0x31, 0x32, 0x38],
        IntegerType::Isize => seq![0x69, 0x73, 0x69, 0x7a, 0x65],
    }
}

/// The integer type spelled by `s`, if any.
pub open spec fn integer_type_of(s: Seq<u8>) -> Option<IntegerType> {
    if s == suffix_bytes(IntegerType::U8) {
        Some(IntegerType::U8)
    } else if s == suffix_bytes(IntegerType::U16) {
        Some(IntegerType::U16)
    } else if s == suffix_bytes(IntegerType::U32) {
        Some(IntegerType::U32)
    } else if s == suffix_bytes(IntegerType::U64) {
        Some(IntegerType::U64)
    } else if s == suffix_bytes(IntegerType::U128) {
        Some(IntegerType::U128)
    } else if s == suffix_bytes(IntegerType::Usize) {
        Some(IntegerType::Usize)
    } else if s == suffix_bytes(IntegerType::I8) {
        Some(IntegerType::I8)
    } else if s == suffix_bytes(IntegerType::I16) {
        Some(IntegerType::I16)
    } else if s == suffix_bytes(IntegerType::I32) {
        Some(IntegerType::I32)
    } else if s == suffix_bytes(IntegerType::I64) {
        Some(IntegerType::I64)
    } else if s == suffix_bytes(IntegerType::I128) {
        Some(IntegerType::I128)
    } else if s == suffix_bytes(IntegerType::Isize) {
        Some(IntegerType::Isize)
    } else {
        None
    }
}

/// What parsing an integer literal finds: where the main part (digits and
/// `_`, without base prefix and type suffix) lies, the base and the suffix.
pub struct IntegerParts {
    pub start_main: int,
    pub end_main: int,
    pub base: IntegerBase,
    pub type_suffix: Option<IntegerType>,
}

/// The base prefix of `b`: its length and the base it selects.
pub open spec fn base_prefix(b: Seq<u8>) -> (int, IntegerBase) {
    if b.len() >= 2 && b[0] == 0x30 && b[1] == 0x62 {
        (2, IntegerBase::Binary)
    } else if b.len() >= 2 && b[0] == 0x30 && b[1] == 0x6f {
        (2, IntegerBase::Octal)
    } else if b.len() >= 2 && b[0] == 0x30 && b[1] == 0x78 {
        (2, IntegerBase::Hexadecimal)
    } else {
        (0, IntegerBase::Decimal)
    }
}

/// The integer grammar, on input that starts with a decimal digit: an
/// optional base prefix, a main part that is the maximal run of hex digits and
/// `_`, every digit valid for the base, at least one digit that is not `_`, and
/// then nothing or one of the integer type suffixes.
pub open spec fn integer_grammar(b: Seq<u8>) -> Result<IntegerParts, ErrorModel> {
    let (p, base) = base_prefix(b);
    let end_main = run_end(b, p, hex_or_underscore());
    let end_valid = run_end(b, p, base.digit_or_underscore());
    if end_valid < end_main {
        Err(err_at(ParseErrorKind::InvalidDigit, end_valid))
    } else if forall|i: int| p <= i < end_main ==> b[i] == 0x5f {
        Err(err_span(ParseErrorKind::NoDigits, p, end_main))
    } else if end_main == b.len() {
        Ok(IntegerParts { start_main: p, end_main, base, type_suffix: None })
    } else {
        match integer_type_of(b.subrange(end_main, b.len() as int)) {
            Some(t) => Ok(IntegerParts { start_main: p, end_main, base, type_suffix: Some(t) }),
            None => Err(err_span(ParseErrorKind::InvalidIntegerTypeSuffix, end_main, b.len() as int)),
        }
    }
}

/// What `IntegerLit::parse` returns on the bytes `b`.
pub open spec fn integer_literal(b: Seq<u8>) -> Result<IntegerParts, ErrorModel> {
    if b.len() == 0 {
        Err(err_none(ParseErrorKind::Empty))
    } else if !is_dec_digit(b[0]) {
        Err(err_at(ParseErrorKind::DoesNotStartWithDigit, 0))
    } else {
        integer_grammar(b)
    }
}

/// The value of a run of digits and `_` in the given radix: each digit
/// multiplies what stands before it by the radix and adds its own value; `_`
/// adds nothing.
pub open spec fn digits_value(s: Seq<u8>, radix: int) -> int
    decreases s.len(),
{
    if s.len() == 0 {
        0
    } else {
        let prev = digits_value(s.drop_last(), radix);
        match hex_value(s.last()) {
            Some(d) => prev * radix + d,
            None => prev,
        }
    }
}

/// What reading a main part of digits in the given radix into `N` gives:
/// the value of the digits where it fits in `N`, else `None`.
pub open spec fn reads_value<N: FromIntegerLiteral>(main: Seq<u8>, radix: int, r: Option<N>) -> bool {
    let v = digits_value(main, radix);
    &&& r is Some <==> N::min_int() <= v <= N::max_int()
    &&& r matches Some(n) ==> n.as_int() == v
}

/// The main part of digits and `_` with the `_` taken out.
pub open spec fn without_underscores(s: Seq<u8>) -> Seq<u8>
    decreases s.len(),
{
    if s.len() == 0 {
        s
    } else if s.last() == 0x5f {
        without_underscores(s.drop_last())
    } else {
        without_underscores(s.drop_last()).push(s.last())
    }
}

/// The value of digits never goes down as more digits follow.
pub proof fn lemma_digits_value_mono(s: Seq<u8>, j: int, radix: int)
    requires
        0 <= j <= s.len(),
        radix >= 1,
    ensures
        0 <= digits_value(s.subrange(0, j), radix) <= digits_value(s, radix),
    decreases s.len(),
{
    if j == s.len() {
        assert(s.subrange(0, j) =~= s);
        lemma_digits_value_nonneg(s, radix);
    } else {
        let t = s.drop_last();
        lemma_digits_value_mono(t, j, radix);
        assert(t.subrange(0, j) =~= s.subrange(0, j));
        let prev = digits_value(t, radix);
        assert(prev <= prev * radix) by (nonlinear_arith)
            requires
                prev >= 0,
                radix >= 1,
        ;
    }
}

/// The value of digits is never negative.
pub proof fn lemma_digits_value_nonneg(s: Seq<u8>, radix: int)
    requires
        radix >= 1,
    ensures
        digits_value(s, radix) >= 0,
    decreases s.len(),
{
    if s.len() > 0 {
        lemma_digits_value_nonneg(s.drop_last(), radix);
        let prev = digits_value(s.drop_last(), radix);
        assert(prev * radix >= 0) by (nonlinear_arith)
            requires
                prev >= 0,
                radix >= 1,
        ;
    }
}

/// Integer types that an integer literal's value can be read into. The
/// trait is sealed: it is implemented for the twelve primitive integer types
/// and nowhere else.
pub trait FromIntegerLiteral: Sealed + Copy + Sized {
    /// The value as a mathematical integer.
    spec fn as_int(self) -> int;

    /// The smallest value of the type.
    spec fn min_int() -> int;

    /// The largest value of the type.
    spec fn max_int() -> int;

    /// The type suffix that names the type.
    spec fn spec_ty() -> IntegerType;

    /// Creates itself from the given number, which is at most 16.
    fn from_small_number(n: u8) -> (r: Self)
        requires
            n <= 16,
        ensures
            r.as_int() == n,
    ;

    /// The sum, or `None` where it does not fit.
    fn checked_add(self, rhs: Self) -> (r: Option<Self>)
        ensures
            r is Some <==> Self::min_int() <= self.as_int() + rhs.as_int() <= Self::max_int(),
            r matches Some(v) ==> v.as_int() == self.as_int() + rhs.as_int(),
    ;

    /// The product, or `None` where it does not fit.
    fn checked_mul(self, rhs: Self) -> (r: Option<Self>)
        ensures
            r is Some <==> Self::min_int() <= self.as_int() * rhs.as_int() <= Self::max_int(),
            r matches Some(v) ==> v.as_int() == self.as_int() * rhs.as_int(),
    ;

    /// Zero and every digit value are values of the type.
    proof fn lemma_bounds()
        ensures
            Self::min_int() <= 0,
            16 <= Self::max_int(),
    ;

    /// Different values have different integer values.
    proof fn lemma_as_int_injective(a: Self, b: Self)
        ensures
            a.as_int() == b.as_int() ==> a == b,
    ;

    /// The type suffix that names the type.
    fn ty() -> (r: IntegerType)
        ensures
            r == Self::spec_ty(),
    ;
}

impl FromIntegerLiteral for u8 {
    open spec fn as_int(self) -> int {
        self as int
    }

    open spec fn min_int() -> int {
        u8::MIN as int
    }

    open spec fn max_int() -> int {
        u8::MAX as int
    }

    open spec fn spec_ty() -> IntegerType {
        IntegerType::U8
    }

    fn from_small_number(n: u8) -> (r: Self) {
        n as u8
    }

    fn checked_add(self, rhs: Self) -> (r: Option<Self>) {
        self.checked_add(rhs)
    }

    fn checked_mul(self, rhs: Self) -> (r: Option<Self>) {
        self.checked_mul(rhs)
    }

    proof fn lemma_bounds() {
    }

    proof fn lemma_as_int_injective(a: Self, b: Self) {
    }

    fn ty() -> (r: IntegerType) {
        IntegerType::U8
    }
}

impl FromIntegerLiteral for u16 {
    open spec fn as_int(self) -> int {
        self as int
    }

    open spec fn min_int() -> int {
        u16::MIN as int
    }

    open spec fn max_int() -> int {
        u16::MAX as int
    }

    open spec fn spec_ty() -> IntegerType {
        IntegerType::U16
    }

    fn from_small_number(n: u8) -> (r: Self) {
        n as u16
    }

    fn checked_add(self, rhs: Self) -> (r: Option<Self>) {
        self.checked_add(rhs)
    }

    fn checked_mul(self, rhs: Self) -> (r: Option<Self>) {
        self.checked_mul(rhs)
    }

    proof fn lemma_bounds() {
    }

    proof fn lemma_as_int_injective(a: Self, b: Self) {
    }

    fn ty() -> (r: IntegerType) {
        IntegerType::U16
    }
}

impl FromIntegerLiteral for u32 {
    open spec fn as_int(self) -> int {
        self as int
    }

    open spec fn min_int() -> int {
        u32::MIN as int
    }

    open spec fn max_int() -> int {
        u32::MAX as int
    }

    open spec fn spec_ty() -> IntegerType {
        IntegerType::U32
    }

    fn from_small_number(n: u8) -> (r: Self) {
        n as u32
    }

    fn checked_add(self, rhs: Self) -> (r: Option<Self>) {
        self.checked_add(rhs)
    }

    fn checked_mul(self, rhs: Self) -> (r: Option<Self>) {
        self.checked_mul(rhs)
    }

    proof fn lemma_bounds() {
    }

    proof fn lemma_as_int_injective(a: Self, b: Self) {
    }

    fn ty() -> (r: IntegerType) {
        IntegerType::U32
    }
}

impl FromIntegerLiteral for u64 {
    open spec fn as_int(self) -> int {
        self as int
    }

    open spec fn min_int() -> int {
        u64::MIN as int
    }

    open spec fn max_int() -> int {
        u64::MAX as int
    }

    open spec fn spec_ty() -> IntegerType {
        IntegerType::U64
    }

    fn from_small_number(n: u8) -> (r: Self) {
        n as u64
    }

    fn checked_add(self, rhs: Self) -> (r: Option<Self>) {
        self.checked_add(rhs)
    }

    fn checked_mul(self, rhs: Self) -> (r: Option<Self>) {
        self.checked_mul(rhs)
    }

    proof fn lemma_bounds() {
    }

    proof fn lemma_as_int_injective(a: Self, b: Self) {
    }

    fn ty() -> (r: IntegerType) {
        IntegerType::U64
    }
}

impl FromIntegerLiteral for u128 {
    open spec fn as_int(self) -> int {
        self as int
    }

    open spec fn min_int() -> int {
        u128::MIN as int
    }

    open spec fn max_int() -> int {
        u128::MAX as int
    }

    open spec fn spec_ty() -> IntegerType {
        IntegerType::U128
    }

    fn from_small_number(n: u8) -> (r: Self) {
        n as u128
    }

    fn checked_add(self, rhs: Self) -> (r: Option<Self>) {
        self.checked_add(rhs)
    }

    fn checked_mul(self, rhs: Self) -> (r: Option<Self>) {
        self.checked_mul(rhs)
    }

    proof fn lemma_bounds() {
    }

    proof fn lemma_as_int_injective(a: Self, b: Self) {
    }

    fn ty() -> (r: IntegerType) {
        IntegerType::U128
    }
}

impl FromIntegerLiteral for usize {
    open spec fn as_int(self) -> int {
        self as int
    }

    open spec fn min_int() -> int {
        usize::MIN as int
    }

    open spec fn max_int() -> int {
        usize::MAX as int
    }

    open spec fn spec_ty() -> IntegerType {
        IntegerType::Usize
    }

    fn from_small_number(n: u8) -> (r: Self) {
        n as usize
    }

    fn checked_add(self, rhs: Self) -> (r: Option<Self>) {
        self.checked_add(rhs)
    }

    fn checked_mul(self, rhs: Self) -> (r: Option<Self>) {
        self.checked_mul(rhs)
    }

    proof fn lemma_bounds() {
    }

    proof fn lemma_as_int_injective(a: Self, b: Self) {
    }

    fn ty() -> (r: IntegerType) {
        IntegerType::Usize
    }
}

impl FromIntegerLiteral for i8 {
    open spec fn as_int(self) -> int {
        self as int
    }

    open spec fn min_int() -> int {
        i8::MIN as int
    }

    open spec fn max_int() -> int {
        i8::MAX as int
    }

    open spec fn spec_ty() -> IntegerType {
        IntegerType::I8
    }

    fn from_small_number(n: u8) -> (r: Self) {
        n as i8
    }

    fn checked_add(self, rhs: Self) -> (r: Option<Self>) {
        self.checked_add(rhs)
    }

    fn checked_mul(self, rhs: Self) -> (r: Option<Self>) {
        self.checked_mul(rhs)
    }

    proof fn lemma_bounds() {
    }

    proof fn lemma_as_int_injective(a: Self, b: Self) {
    }

    fn ty() -> (r: IntegerType) {
        IntegerType::I8
    }
}

impl FromIntegerLiteral for i16 {
    open spec fn as_int(self) -> int {
        self as int
    }

    open spec fn min_int() -> int {
        i16::MIN as int
    }

    open spec fn max_int() -> int {
        i16::MAX as int
    }

    open spec fn spec_ty() -> IntegerType {
        IntegerType::I16
    }

    fn from_small_number(n: u8) -> (r: Self) {
        n as i16
    }

    fn checked_add(self, rhs: Self) -> (r: Option<Self>) {
        self.checked_add(rhs)
    }

    fn checked_mul(self, rhs: Self) -> (r: Option<Self>) {
        self.checked_mul(rhs)
    }

    proof fn lemma_bounds() {
    }

    proof fn lemma_as_int_injective(a: Self, b: Self) {
    }

    fn ty() -> (r: IntegerType) {
        IntegerType::I16
    }
}

impl FromIntegerLiteral for i32 {
    open spec fn as_int(self) -> int {
        self as int
    }

    open spec fn min_int() -> int {
        i32::MIN as int
    }

    open spec fn max_int() -> int {
        i32::MAX as int
    }

    open spec fn spec_ty() -> IntegerType {
        IntegerType::I32
    }

    fn from_small_number(n: u8) -> (r: Self) {
        n as i32
    }

    fn checked_add(self, rhs: Self) -> (r: Option<Self>) {
        self.checked_add(rhs)
    }

    fn checked_mul(self, rhs: Self) -> (r: Option<Self>) {
        self.checked_mul(rhs)
    }

    proof fn lemma_bounds() {
    }

    proof fn lemma_as_int_injective(a: Self, b: Self) {
    }

    fn ty() -> (r: IntegerType) {
        IntegerType::I32
    }
}

impl FromIntegerLiteral for i64 {
    open spec fn as_int(self) -> int {
        self as int
    }

    open spec fn min_int() -> int {
        i64::MIN as int
    }

    open spec fn max_int() -> int {
        i64::MAX as int
    }

    open spec fn spec_ty() -> IntegerType {
        IntegerType::I64
    }

    fn from_small_number(n: u8) -> (r: Self) {
        n as i64
    }

    fn checked_add(self, rhs: Self) -> (r: Option<Self>) {
        self.checked_add(rhs)
    }

    fn checked_mul(self, rhs: Self) -> (r: Option<Self>) {
        self.checked_mul(rhs)
    }

    proof fn lemma_bounds() {
    }

    proof fn lemma_as_int_injective(a: Self, b: Self) {
    }

    fn ty() -> (r: IntegerType) {
        IntegerType::I64
    }
}

impl FromIntegerLiteral for i128 {
    open spec fn as_int(self) -> int {
        self as int
    }

    open spec fn min_int() -> int {
        i128::MIN as int
    }

    open spec fn max_int() -> int {
        i128::MAX as int
    }

    open spec fn spec_ty() -> IntegerType {
        IntegerType::I128
    }

    fn from_small_number(n: u8) -> (r: Self) {
        n as i128
    }

    fn checked_add(self, rhs: Self) -> (r: Option<Self>) {
        self.checked_add(rhs)
    }

    fn checked_mul(self, rhs: Self) -> (r: Option<Self>) {
        self.checked_mul(rhs)
    }

    proof fn lemma_bounds() {
    }

    proof fn lemma_as_int_injective(a: Self, b: Self) {
    }

    fn ty() -> (r: IntegerType) {
        IntegerType::I128
    }
}

impl FromIntegerLiteral for isize {
    open spec fn as_int(self) -> int {
        self as int
    }

    open spec fn min_int() -> int {
        isize::MIN as int
    }

    open spec fn max_int() -> int {
        isize::MAX as int
    }

    open spec fn spec_ty() -> IntegerType {
        IntegerType::Isize
    }

    fn from_small_number(n: u8) -> (r: Self) {
        n as isize
    }

    fn checked_add(self, rhs: Self) -> (r: Option<Self>) {
        self.checked_add(rhs)
    }

    fn checked_mul(self, rhs: Self) -> (r: Option<Self>) {
        self.checked_mul(rhs)
    }

    proof fn lemma_bounds() {
    }

    proof fn lemma_as_int_injective(a: Self, b: Self) {
    }

    fn ty() -> (r: IntegerType) {
        IntegerType::Isize
    }
}

/// An integer literal, e.g. `27`, `0x7F`, `0b101010u8` or `5_000_000i64`.
///
/// An integer literal consists of an optional base prefix (`0b`, `0o`, `0x`),
/// the main part (digits and underscores), and an optional type suffix
/// (e.g. `u64` or `i8`).
///
/// Integer literals are never negative: the minus sign is the unary negate
/// operator, not part of the literal. So `IntegerLit::parse` does not check
/// for overflow: the value of `128i8` is fine as a literal.
#[derive(Debug, Clone, Copy, PartialEq, Eq)]
pub struct IntegerLit<B: Buffer> {
    raw: B,
    /// First index of the main number part (after the base prefix).
    start_main_part: usize,
    /// First index not part of the main number part.
    end_main_part: usize,
    base: IntegerBase,
    type_suffix: Option<IntegerType>,
}

impl<B: Buffer> IntegerLit<B> {
    /// The source text of the literal.
    pub closed spec fn text(&self) -> Seq<char> {
        self.raw.text()
    }

    /// The parts that parsing found in the text.
    pub closed spec fn parts(&self) -> IntegerParts {
        IntegerParts {
            start_main: self.start_main_part as int,
            end_main: self.end_main_part as int,
            base: self.base,
            type_suffix: self.type_suffix,
        }
    }

    /// The parts are what parsing the text finds.
    pub closed spec fn wf(&self) -> bool {
        integer_literal(bytes_of(&self.raw)) == Ok::<IntegerParts, ErrorModel>(self.parts())
    }

    /// Parses the input as an integer literal. Returns an error if the input is
    /// invalid or represents a different kind of literal.
    pub fn parse(input: B) -> (r: Result<Self, ParseError>)
        ensures
            match r {
                Ok(lit) => lit.wf() && lit.text() == input.text() && integer_literal(bytes_of(&input)) == Ok::<
                    IntegerParts,
                    ErrorModel,
                >(lit.parts()),
                Err(e) => integer_literal(bytes_of(&input)) == Err::<IntegerParts, ErrorModel>(e.model()),
            },
    {
        let parts = {
            let b = input.as_text().as_bytes();
            if b.len() == 0 {
                return Err(perr_none(ParseErrorKind::Empty));
            }
            if !(0x30 <= b[0] && b[0] <= 0x39) {
                return Err(perr_at(0, ParseErrorKind::DoesNotStartWithDigit));
            }
            parse_impl(b)
        };
        match parts {
            Ok((start_main_part, end_main_part, base, type_suffix)) => Ok(
                IntegerLit { raw: input, start_main_part, end_main_part, base, type_suffix },
            ),
            Err(e) => Err(e),
        }
    }

    /// Performs the actual string to int conversion to obtain the integer
    /// value. The optional type suffix of the literal **is ignored by this
    /// method**: `N` does not need to match the type suffix.
    ///
    /// Returns `None` if the value does not fit in `N`.
    pub fn value<N: FromIntegerLiteral>(&self) -> (r: Option<N>)
        requires
            self.wf(),
        ensures
            reads_value(
                bytes_of(&self.raw_spec()).subrange(self.parts().start_main, self.parts().end_main),
                self.parts().base.radix(),
                r,
            ),
    {
        let b = self.raw.as_text().as_bytes();
        let radix: u8 = match self.base {
            IntegerBase::Binary => 2,
            IntegerBase::Octal => 8,
            IntegerBase::Decimal => 10,
            IntegerBase::Hexadecimal => 16,
        };
        let base = N::from_small_number(radix);
        let mut acc = N::from_small_number(0);
        let start = self.start_main_part;
        let end = self.end_main_part;
        let ghost main = b@.subrange(start as int, end as int);
        proof {
            lemma_run_end(b@, start as int, hex_or_underscore());
            assert(main.subrange(0, 0) =~= Seq::<u8>::empty());
            N::lemma_bounds();
        }
        let mut i: usize = start;
        while i < end
            invariant
                start <= i <= end <= b@.len(),
                main == b@.subrange(start as int, end as int),
                main == bytes_of(&self.raw_spec()).subrange(
                    self.parts().start_main,
                    self.parts().end_main,
                ),
                base.as_int() == radix as int,
                radix as int == self.parts().base.radix(),
                acc.as_int() == digits_value(main.subrange(0, i - start), radix as int),
                N::min_int() <= 0 <= N::max_int(),
                N::min_int() <= acc.as_int() <= N::max_int(),
                forall|k: int| start <= k < end ==> hex_or_underscore()(#[trigger] b@[k]),
            decreases end - i,
        {
            let digit = b[i];
            let ghost pre = main.subrange(0, i - start);
            let ghost next = main.subrange(0, i + 1 - start);
            proof {
                assert(next.drop_last() =~= pre);
                assert(next.last() == digit);
                lemma_digits_value_nonneg(pre, radix as int);
                assert(main[i - start] == digit);
            }
            if digit != 0x5f {
                let d = match hex_digit_value(digit) {
                    Some(d) => d,
                    None => 0,
                };
                match acc.checked_mul(base) {
                    Some(m) => {
                        match m.checked_add(N::from_small_number(d)) {
                            Some(s) => {
                                acc = s;
                            },
                            None => {
                                proof {
                                    let a = acc.as_int();
                                    let r = radix as int;
                                    assert(a * r >= 0) by (nonlinear_arith)
                                        requires
                                            a >= 0,
                                            r >= 0,
                                    ;
                                    assert(digits_value(next, r) == a * r + d);
                                    lemma_digits_value_mono(main, i + 1 - start, r);
                                    assert(digits_value(main, r) > N::max_int());
                                }
                                return None;
                            },
                        }
                    },
                    None => {
                        proof {
                            let a = acc.as_int();
                            let r = radix as int;
                            assert(a * r >= 0) by (nonlinear_arith)
                                requires
                                    a >= 0,
                                    r >= 0,
                            ;
                            assert(digits_value(next, r) == a * r + d);
                            lemma_digits_value_mono(main, i + 1 - start, r);
                            assert(digits_value(main, r) > N::max_int());
                        }
                        return None;
                    },
                }
            }
            i += 1;
        }
        proof {
            assert(main.subrange(0, end - start) =~= main);
        }
        Some(acc)
    }

    /// The raw buffer, for contracts.
    pub closed spec fn raw_spec(&self) -> B {
        self.raw
    }

    /// The base of this integer literal.
    pub fn base(&self) -> (r: IntegerBase)
        ensures
            r == self.parts().base,
    {
        self.base
    }

    /// The main part containing the digits and potentially `_`. Do not try to
    /// parse this directly as that would ignore the base!
    pub fn raw_main_part(&self) -> (r: &str)
        requires
            self.wf(),
        ensures
            r.spec_bytes() == bytes_of(&self.raw_spec()).subrange(
                self.parts().start_main,
                self.parts().end_main,
            ),
    {
        let s = self.raw.as_text();
        proof {
            let b = s.spec_bytes();
            lemma_run_end(b, self.start_main_part as int, hex_or_underscore());
            if self.start_main_part == 2 {
                assert(!(forall|i: int| 2 <= i < self.end_main_part ==> b[i] == 0x5f));
                lemma_ascii_boundary(b, 2);
            }
            if self.end_main_part < b.len() {
                let t = self.type_suffix.unwrap();
                assert(b.subrange(self.end_main_part as int, b.len() as int) == suffix_bytes(t));
                assert(b[self.end_main_part as int] == suffix_bytes(t)[0]);
                lemma_ascii_boundary(b, self.end_main_part as int);
            }
        }
        substr(s, self.start_main_part, self.end_main_part)
    }

    /// The type suffix, if specified.
    pub fn type_suffix(&self) -> (r: Option<IntegerType>)
        ensures
            r == self.parts().type_suffix,
    {
        self.type_suffix
    }

    /// Renders the literal: its text, exactly as it was parsed.
    pub fn to_string(&self) -> (r: String)
        ensures
            r@ == self.text(),
    {
        self.raw.as_text().to_owned()
    }

    /// Returns the raw input that was passed to `parse`.
    pub fn raw_input(&self) -> (r: &str)
        ensures
            r@ == self.text(),
    {
        self.raw.as_text()
    }

    /// Returns the raw input that was passed to `parse`, potentially owned.
    pub fn into_raw_input(self) -> (r: B)
        ensures
            r.text() == self.text(),
    {
        self.raw
    }
}

impl<'a> IntegerLit<&'a str> {
    /// Makes a copy of the underlying buffer and returns the owned version of
    /// `Self`.
    pub fn to_owned(&self) -> (r: IntegerLit<String>)
        requires
            self.wf(),
        ensures
            r.wf(),
            r.text() == self.text(),
            r.parts() == self.parts(),
    {
        IntegerLit {
            raw: self.raw.to_owned(),
            start_main_part: self.start_main_part,
            end_main_part: self.end_main_part,
            base: self.base,
            type_suffix: self.type_suffix,
        }
    }
}

/// If `s` spells an integer type, it has that type's length and bytes.
proof fn lemma_not_a_suffix(s: Seq<u8>)
    ensures
        integer_type_of(s) matches Some(t) ==> s.len() == suffix_bytes(t).len() && forall|k: int|
            0 <= k < s.len() ==> s[k] == #[trigger] suffix_bytes(t)[k],
{
}

/// Whether `digit` is `_` or a digit valid in `base`.
fn is_digit_of(base: IntegerBase, digit: u8) -> (r: bool)
    ensures
        r == base.digit_or_underscore()(digit),
{
    if digit == 0x5f {
        return true;
    }
    match hex_digit_value(digit) {
        Some(d) => match base {
            IntegerBase::Binary => d < 2,
            IntegerBase::Octal => d < 8,
            IntegerBase::Decimal => d < 10,
            IntegerBase::Hexadecimal => true,
        },
        None => false,
    }
}

/// The integer type spelled by the bytes of `b` from `start` to the end.
fn integer_type_at(b: &[u8], start: usize) -> (r: Option<IntegerType>)
    requires
        start <= b@.len(),
    ensures
        r == integer_type_of(b@.subrange(start as int, b@.len() as int)),
{
    let ghost s = b@.subrange(start as int, b@.len() as int);
    let n = b.len() - start;
    if n < 2 || n > 5 {
        proof {
            lemma_not_a_suffix(s);
        }
        return None;
    }
    let signed = if b[start] == 0x75 {
        false
    } else if b[start] == 0x69 {
        true
    } else {
        proof {
            assert(s[0] == b[start as int]);
            lemma_not_a_suffix(s);
        }
        return None;
    };
    assert(s[0] == b[start as int]);
    assert(s[1] == b[start + 1]);
    let (u, i) = if n == 2 && b[start + 1] == 0x38 {
        (IntegerType::U8, IntegerType::I8)
    } else if n == 3 && b[start + 1] == 0x31 && b[start + 2] == 0x36 {
        (IntegerType::U16, IntegerType::I16)
    } else if n == 3 && b[start + 1] == 0x33 && b[start + 2] == 0x32 {
        (IntegerType::U32, IntegerType::I32)
    } else if n == 3 && b[start + 1] == 0x36 && b[start + 2] == 0x34 {
        (IntegerType::U64, IntegerType::I64)
    } else if n == 4 && b[start + 1] == 0x31 && b[start + 2] == 0x32 && b[start + 3] == 0x38 {
        (IntegerType::U128, IntegerType::I128)
    } else if n == 5 && b[start + 1] == 0x73 && b[start + 2] == 0x69 && b[start + 3] == 0x7a
        && b[start + 4] == 0x65 {
        (IntegerType::Usize, IntegerType::Isize)
    } else {
        proof {
            if n >= 3 {
                assert(s[2] == b[start + 2]);
            }
            if n >= 4 {
                assert(s[3] == b[start + 3]);
            }
            if n >= 5 {
                assert(s[4] == b[start + 4]);
            }
            lemma_not_a_suffix(s);
        }
        return None;
    };
    let t = if signed {
        i
    } else {
        u
    };
    proof {
        assert(s =~= suffix_bytes(t));
    }
    Some(t)
}

/// Parses an integer literal. Precondition: the first byte is a decimal
/// digit. Returns the start and end of the main part, the base and the type
/// suffix.
fn parse_impl(b: &[u8]) -> (r: Result<(usize, usize, IntegerBase, Option<IntegerType>), ParseError>)
    requires
        b@.len() > 0,
        is_dec_digit(b@[0]),
    ensures
        match r {
            Ok((s, e, base, t)) => integer_grammar(b@) == Ok::<IntegerParts, ErrorModel>(
                IntegerParts { start_main: s as int, end_main: e as int, base, type_suffix: t },
            ),
            Err(err) => integer_grammar(b@) == Err::<IntegerParts, ErrorModel>(err.model()),
        },
{
    // Figure out base and strip prefix base, if it exists.
    let (end_prefix, base): (usize, IntegerBase) = if b.len() >= 2 && b[0] == 0x30 && b[1] == 0x62 {
        (2, IntegerBase::Binary)
    } else if b.len() >= 2 && b[0] == 0x30 && b[1] == 0x6f {
        (2, IntegerBase::Octal)
    } else if b.len() >= 2 && b[0] == 0x30 && b[1] == 0x78 {
        (2, IntegerBase::Hexadecimal)
    } else {
        (0, IntegerBase::Decimal)
    };
    assert(base_prefix(b@) == (end_prefix as int, base));

    // Find end of main part.
    let end_main = end_hex_digits(b, end_prefix);
    proof {
        lemma_run_end(b@, end_prefix as int, hex_or_underscore());
    }

    // Check for invalid digits.
    let mut i: usize = end_prefix;
    while i < b.len() && is_digit_of(base, b[i])
        invariant
            end_prefix <= i <= b@.len(),
            forall|k: int| end_prefix <= k < i ==> base.digit_or_underscore()(#[trigger] b@[k]),
        decreases b@.len() - i,
    {
        i += 1;
    }
    proof {
        lemma_run_end_at(b@, end_prefix as int, i as int, base.digit_or_underscore());
        if i > end_main {
            assert(base.digit_or_underscore()(b@[end_main as int]));
        }
    }
    if i < end_main {
        return Err(perr_at(i, ParseErrorKind::InvalidDigit));
    }

    // Make sure there is at least one digit.
    let mut j: usize = end_prefix;
    while j < end_main && b[j] == 0x5f
        invariant
            end_prefix <= j <= end_main,
            end_main <= b@.len(),
            forall|k: int| end_prefix <= k < j ==> b@[k] == 0x5f,
        decreases end_main - j,
    {
        j += 1;
    }
    if j == end_main {
        return Err(perr_span(end_prefix, end_main, ParseErrorKind::NoDigits));
    }
    assert(!(forall|k: int| end_prefix <= k < end_main ==> b@[k] == 0x5f));

    // Parse type suffix
    if end_main == b.len() {
        return Ok((end_prefix, end_main, base, None));
    }
    match integer_type_at(b, end_main) {
        Some(t) => Ok((end_prefix, end_main, base, Some(t))),
        None => Err(perr_span(end_main, b.len(), ParseErrorKind::InvalidIntegerTypeSuffix)),
    }
}

} // verus!
