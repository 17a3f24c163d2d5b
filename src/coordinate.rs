use vstd::prelude::*;

verus! {

/// What `checked_multiply` reports for two integer values: their product when
/// both are non-negative sizes and the product is itself a size, else nothing.
pub open spec fn checked_product(a: int, b: int) -> Option<usize> {
    if 0 <= a <= usize::MAX && 0 <= b <= usize::MAX && a * b <= usize::MAX {
        Some((a * b) as usize)
    } else {
        None
    }
}


/// A scalar with an integer value, bounded by its type.
pub trait Integral: Copy + Sized {
    /// The value as a mathematical integer.
    spec fn int_value(&self) -> int;

    /// The least value of the type.
    spec fn min_int() -> int;

    /// The greatest value of the type.
    spec fn max_int() -> int;

    /// The value of the type whose integer is `i`, for `i` within the bounds.
    spec fn from_int(i: int) -> Self;

    /// Every value lies within the type's bounds, which hold zero and one, and
    /// values are equal exactly when their integers are.
    proof fn lemma_bounds(x: Self)
        ensures
            Self::min_int() <= x.int_value() <= Self::max_int(),
            Self::min_int() <= 0,
            1 <= Self::max_int(),
            -Self::max_int() - 1 <= Self::min_int(),
    ;

    /// `from_int` inverts `int_value` within the bounds.
    proof fn lemma_from_int(i: int)
        requires
            Self::min_int() <= i <= Self::max_int(),
        ensures
            Self::from_int(i).int_value() == i,
    ;

    /// Two values with the same integer are the same value.
    proof fn lemma_injective(x: Self, y: Self)
        ensures
            x.int_value() == y.int_value() ==> x == y,
    ;
}

/// Unit returns the natural "one" of a type, used to step through a range.
pub trait Unit: Integral {
    fn unit() -> (r: Self)
        ensures
            r.int_value() == 1,
    ;
}

/// A multiplication that reports overflow rather than wrapping, into the
/// platform size type. It bounds the storage that a matrix of two counts needs.
pub trait CheckedMul: Integral {
    fn checked_multiply(&self, rhs: Self) -> (r: Option<usize>)
        ensures
            r == checked_product(self.int_value(), rhs.int_value()),
    ;
}

/// Coordinate is what a dimensional index of a matrix must offer: the
/// arithmetic, order and conversions that addressing and iteration use.
pub trait Coordinate: Unit + CheckedMul {
    fn zero() -> (r: Self)
        ensures
            r.int_value() == 0,
    ;

    fn plus(self, rhs: Self) -> (r: Self)
        requires
            Self::min_int() <= self.int_value() + rhs.int_value() <= Self::max_int(),
        ensures
            r.int_value() == self.int_value() + rhs.int_value(),
    ;

    fn minus(self, rhs: Self) -> (r: Self)
        requires
            Self::min_int() <= self.int_value() - rhs.int_value() <= Self::max_int(),
        ensures
            r.int_value() == self.int_value() - rhs.int_value(),
    ;

    fn precedes(&self, rhs: &Self) -> (r: bool)
        ensures
            r == (self.int_value() < rhs.int_value()),
    ;

    fn equals(&self, rhs: &Self) -> (r: bool)
        ensures
            r == (self.int_value() == rhs.int_value()),
    ;

    fn to_usize(&self) -> (r: Option<usize>)
        ensures
            r is Some <==> 0 <= self.int_value() <= usize::MAX,
            r is Some ==> r->0 as int == self.int_value(),
    ;

    fn to_u128(&self) -> (r: Option<u128>)
        ensures
            r is Some <==> 0 <= self.int_value(),
            r is Some ==> r->0 as int == self.int_value(),
    ;

    fn from_usize(n: usize) -> (r: Option<Self>)
        ensures
            r is Some <==> n as int <= Self::max_int(),
            r is Some ==> r->0.int_value() == n as int,
    ;
}

impl Integral for u8 {
    open spec fn int_value(&self) -> int {
        *self as int
    }

    open spec fn min_int() -> int {
        u8::MIN as int
    }

    open spec fn max_int() -> int {
        u8::MAX as int
    }

    open spec fn from_int(i: int) -> Self {
        i as u8
    }

    proof fn lemma_bounds(x: Self) {
    }

    proof fn lemma_from_int(i: int) {
    }

    proof fn lemma_injective(x: Self, y: Self) {
    }
}

impl Unit for u8 {
    fn unit() -> (r: Self) {
        1
    }
}

impl CheckedMul for u8 {
    fn checked_multiply(&self, rhs: Self) -> (r: Option<usize>) {
        match (self.to_usize(), rhs.to_usize()) {
            (Some(a), Some(b)) => a.checked_mul(b),
            _ => None,
        }
    }
}

impl Coordinate for u8 {
    fn zero() -> (r: Self) {
        0
    }

    fn plus(self, rhs: Self) -> (r: Self) {
        self + rhs
    }

    fn minus(self, rhs: Self) -> (r: Self) {
        self - rhs
    }

    fn precedes(&self, rhs: &Self) -> (r: bool) {
        *self < *rhs
    }

    fn equals(&self, rhs: &Self) -> (r: bool) {
        *self == *rhs
    }

    fn to_usize(&self) -> (r: Option<usize>) {
        Some(*self as usize)
    }

    fn to_u128(&self) -> (r: Option<u128>) {
        Some(*self as u128)
    }

    fn from_usize(n: usize) -> (r: Option<Self>) {
        match u8::try_from(n) {
            Ok(v) => Some(v),
            Err(_) => None,
        }
    }
}

impl Integral for u16 {
    open spec fn int_value(&self) -> int {
        *self as int
    }

    open spec fn min_int() -> int {
        u16::MIN as int
    }

    open spec fn max_int() -> int {
        u16::MAX as int
    }

    open spec fn from_int(i: int) -> Self {
        i as u16
    }

    proof fn lemma_bounds(x: Self) {
    }

    proof fn lemma_from_int(i: int) {
    }

    proof fn lemma_injective(x: Self, y: Self) {
    }
}

impl Unit for u16 {
    fn unit() -> (r: Self) {
        1
    }
}

impl CheckedMul for u16 {
    fn checked_multiply(&self, rhs: Self) -> (r: Option<usize>) {
        match (self.to_usize(), rhs.to_usize()) {
            (Some(a), Some(b)) => a.checked_mul(b),
            _ => None,
        }
    }
}

impl Coordinate for u16 {
    fn zero() -> (r: Self) {
        0
    }

    fn plus(self, rhs: Self) -> (r: Self) {
        self + rhs
    }

    fn minus(self, rhs: Self) -> (r: Self) {
        self - rhs
    }

    fn precedes(&self, rhs: &Self) -> (r: bool) {
        *self < *rhs
    }

    fn equals(&self, rhs: &Self) -> (r: bool) {
        *self == *rhs
    }

    fn to_usize(&self) -> (r: Option<usize>) {
        Some(*self as usize)
    }

    fn to_u128(&self) -> (r: Option<u128>) {
        Some(*self as u128)
    }

    fn from_usize(n: usize) -> (r: Option<Self>) {
        match u16::try_from(n) {
            Ok(v) => Some(v),
            Err(_) => None,
        }
    }
}

impl Integral for u32 {
    open spec fn int_value(&self) -> int {
        *self as int
    }

    open spec fn min_int() -> int {
        u32::MIN as int
    }

    open spec fn max_int() -> int {
        u32::MAX as int
    }

    open spec fn from_int(i: int) -> Self {
        i as u32
    }

    proof fn lemma_bounds(x: Self) {
    }

    proof fn lemma_from_int(i: int) {
    }

    proof fn lemma_injective(x: Self, y: Self) {
    }
}

impl Unit for u32 {
    fn unit() -> (r: Self) {
        1
    }
}

impl CheckedMul for u32 {
    fn checked_multiply(&self, rhs: Self) -> (r: Option<usize>) {
        match (self.to_usize(), rhs.to_usize()) {
            (Some(a), Some(b)) => a.checked_mul(b),
            _ => None,
        }
    }
}

impl Coordinate for u32 {
    fn zero() -> (r: Self) {
        0
    }

    fn plus(self, rhs: Self) -> (r: Self) {
        self + rhs
    }

    fn minus(self, rhs: Self) -> (r: Self) {
        self - rhs
    }

    fn precedes(&self, rhs: &Self) -> (r: bool) {
        *self < *rhs
    }

    fn equals(&self, rhs: &Self) -> (r: bool) {
        *self == *rhs
    }

    fn to_usize(&self) -> (r: Option<usize>) {
        match usize::try_from(*self) {
            Ok(v) => Some(v),
            Err(_) => None,
        }
    }

    fn to_u128(&self) -> (r: Option<u128>) {
        Some(*self as u128)
    }

    fn from_usize(n: usize) -> (r: Option<Self>) {
        match u32::try_from(n) {
            Ok(v) => Some(v),
            Err(_) => None,
        }
    }
}

impl Integral for u64 {
    open spec fn int_value(&self) -> int {
        *self as int
    }

    open spec fn min_int() -> int {
        u64::MIN as int
    }

    open spec fn max_int() -> int {
        u64::MAX as int
    }

    open spec fn from_int(i: int) -> Self {
        i as u64
    }

    proof fn lemma_bounds(x: Self) {
    }

    proof fn lemma_from_int(i: int) {
    }

    proof fn lemma_injective(x: Self, y: Self) {
    }
}

impl Unit for u64 {
    fn unit() -> (r: Self) {
        1
    }
}

impl CheckedMul for u64 {
    fn checked_multiply(&self, rhs: Self) -> (r: Option<usize>) {
        match (self.to_usize(), rhs.to_usize()) {
            (Some(a), Some(b)) => a.checked_mul(b),
            _ => None,
        }
    }
}

impl Coordinate for u64 {
    fn zero() -> (r: Self) {
        0
    }

    fn plus(self, rhs: Self) -> (r: Self) {
        self + rhs
    }

    fn minus(self, rhs: Self) -> (r: Self) {
        self - rhs
    }

    fn precedes(&self, rhs: &Self) -> (r: bool) {
        *self < *rhs
    }

    fn equals(&self, rhs: &Self) -> (r: bool) {
        *self == *rhs
    }

    fn to_usize(&self) -> (r: Option<usize>) {
        match usize::try_from(*self) {
            Ok(v) => Some(v),
            Err(_) => None,
        }
    }

    fn to_u128(&self) -> (r: Option<u128>) {
        Some(*self as u128)
    }

    fn from_usize(n: usize) -> (r: Option<Self>) {
        match u64::try_from(n) {
            Ok(v) => Some(v),
            Err(_) => None,
        }
    }
}

impl Integral for i8 {
    open spec fn int_value(&self) -> int {
        *self as int
    }

    open spec fn min_int() -> int {
        i8::MIN as int
    }

    open spec fn max_int() -> int {
        i8::MAX as int
    }

    open spec fn from_int(i: int) -> Self {
        i as i8
    }

    proof fn lemma_bounds(x: Self) {
    }

    proof fn lemma_from_int(i: int) {
    }

    proof fn lemma_injective(x: Self, y: Self) {
    }
}

impl Unit for i8 {
    fn unit() -> (r: Self) {
        1
    }
}

impl CheckedMul for i8 {
    fn checked_multiply(&self, rhs: Self) -> (r: Option<usize>) {
        match (self.to_usize(), rhs.to_usize()) {
            (Some(a), Some(b)) => a.checked_mul(b),
            _ => None,
        }
    }
}

impl Coordinate for i8 {
    fn zero() -> (r: Self) {
        0
    }

    fn plus(self, rhs: Self) -> (r: Self) {
        self + rhs
    }

    fn minus(self, rhs: Self) -> (r: Self) {
        self - rhs
    }

    fn precedes(&self, rhs: &Self) -> (r: bool) {
        *self < *rhs
    }

    fn equals(&self, rhs: &Self) -> (r: bool) {
        *self == *rhs
    }

    fn to_usize(&self) -> (r: Option<usize>) {
        match usize::try_from(*self) {
            Ok(v) => Some(v),
            Err(_) => None,
        }
    }

    fn to_u128(&self) -> (r: Option<u128>) {
        if *self < 0 {
            None
        } else {
            Some(*self as u128)
        }
    }

    fn from_usize(n: usize) -> (r: Option<Self>) {
        match i8::try_from(n) {
            Ok(v) => Some(v),
            Err(_) => None,
        }
    }
}

impl Integral for i16 {
    open spec fn int_value(&self) -> int {
        *self as int
    }

    open spec fn min_int() -> int {
        i16::MIN as int
    }

    open spec fn max_int() -> int {
        i16::MAX as int
    }

    open spec fn from_int(i: int) -> Self {
        i as i16
    }

    proof fn lemma_bounds(x: Self) {
    }

    proof fn lemma_from_int(i: int) {
    }

    proof fn lemma_injective(x: Self, y: Self) {
    }
}

impl Unit for i16 {
    fn unit() -> (r: Self) {
        1
    }
}

impl CheckedMul for i16 {
    fn checked_multiply(&self, rhs: Self) -> (r: Option<usize>) {
        match (self.to_usize(), rhs.to_usize()) {
            (Some(a), Some(b)) => a.checked_mul(b),
            _ => None,
        }
    }
}

impl Coordinate for i16 {
    fn zero() -> (r: Self) {
        0
    }

    fn plus(self, rhs: Self) -> (r: Self) {
        self + rhs
    }

    fn minus(self, rhs: Self) -> (r: Self) {
        self - rhs
    }

    fn precedes(&self, rhs: &Self) -> (r: bool) {
        *self < *rhs
    }

    fn equals(&self, rhs: &Self) -> (r: bool) {
        *self == *rhs
    }

    fn to_usize(&self) -> (r: Option<usize>) {
        match usize::try_from(*self) {
            Ok(v) => Some(v),
            Err(_) => None,
        }
    }

    fn to_u128(&self) -> (r: Option<u128>) {
        if *self < 0 {
            None
        } else {
            Some(*self as u128)
        }
    }

    fn from_usize(n: usize) -> (r: Option<Self>) {
        match i16::try_from(n) {
            Ok(v) => Some(v),
            Err(_) => None,
        }
    }
}

impl Integral for i32 {
    open spec fn int_value(&self) -> int {
        *self as int
    }

    open spec fn min_int() -> int {
        i32::MIN as int
    }

    open spec fn max_int() -> int {
        i32::MAX as int
    }

    open spec fn from_int(i: int) -> Self {
        i as i32
    }

    proof fn lemma_bounds(x: Self) {
    }

    proof fn lemma_from_int(i: int) {
    }

    proof fn lemma_injective(x: Self, y: Self) {
    }
}

impl Unit for i32 {
    fn unit() -> (r: Self) {
        1
    }
}

impl CheckedMul for i32 {
    fn checked_multiply(&self, rhs: Self) -> (r: Option<usize>) {
        match (self.to_usize(), rhs.to_usize()) {
            (Some(a), Some(b)) => a.checked_mul(b),
            _ => None,
        }
    }
}

impl Coordinate for i32 {
    fn zero() -> (r: Self) {
        0
    }

    fn plus(self, rhs: Self) -> (r: Self) {
        self + rhs
    }

    fn minus(self, rhs: Self) -> (r: Self) {
        self - rhs
    }

    fn precedes(&self, rhs: &Self) -> (r: bool) {
        *self < *rhs
    }

    fn equals(&self, rhs: &Self) -> (r: bool) {
        *self == *rhs
    }

    fn to_usize(&self) -> (r: Option<usize>) {
        match usize::try_from(*self) {
            Ok(v) => Some(v),
            Err(_) => None,
        }
    }

    fn to_u128(&self) -> (r: Option<u128>) {
        if *self < 0 {
            None
        } else {
            Some(*self as u128)
        }
    }

    fn from_usize(n: usize) -> (r: Option<Self>) {
        match i32::try_from(n) {
            Ok(v) => Some(v),
            Err(_) => None,
        }
    }
}

impl Integral for i64 {
    open spec fn int_value(&self) -> int {
        *self as int
    }

    open spec fn min_int() -> int {
        i64::MIN as int
    }

    open spec fn max_int() -> int {
        i64::MAX as int
    }

    open spec fn from_int(i: int) -> Self {
        i as i64
    }

    proof fn lemma_bounds(x: Self) {
    }

    proof fn lemma_from_int(i: int) {
    }

    proof fn lemma_injective(x: Self, y: Self) {
    }
}

impl Unit for i64 {
    fn unit() -> (r: Self) {
        1
    }
}

impl CheckedMul for i64 {
    fn checked_multiply(&self, rhs: Self) -> (r: Option<usize>) {
        match (self.to_usize(), rhs.to_usize()) {
            (Some(a), Some(b)) => a.checked_mul(b),
            _ => None,
        }
    }
}

impl Coordinate for i64 {
    fn zero() -> (r: Self) {
        0
    }

    fn plus(self, rhs: Self) -> (r: Self) {
        self + rhs
    }

    fn minus(self, rhs: Self) -> (r: Self) {
        self - rhs
    }

    fn precedes(&self, rhs: &Self) -> (r: bool) {
        *self < *rhs
    }

    fn equals(&self, rhs: &Self) -> (r: bool) {
        *self == *rhs
    }

    fn to_usize(&self) -> (r: Option<usize>) {
        match usize::try_from(*self) {
            Ok(v) => Some(v),
            Err(_) => None,
        }
    }

    fn to_u128(&self) -> (r: Option<u128>) {
        if *self < 0 {
            None
        } else {
            Some(*self as u128)
        }
    }

    fn from_usize(n: usize) -> (r: Option<Self>) {
        match i64::try_from(n) {
            Ok(v) => Some(v),
            Err(_) => None,
        }
    }
}

impl Integral for u128 {
    open spec fn int_value(&self) -> int {
        *self as int
    }

    open spec fn min_int() -> int {
        u128::MIN as int
    }

    open spec fn max_int() -> int {
        u128::MAX as int
    }

    open spec fn from_int(i: int) -> Self {
        i as u128
    }

    proof fn lemma_bounds(x: Self) {
    }

    proof fn lemma_from_int(i: int) {
    }

    proof fn lemma_injective(x: Self, y: Self) {
    }
}

impl Unit for u128 {
    fn unit() -> (r: Self) {
        1
    }
}

impl Integral for i128 {
    open spec fn int_value(&self) -> int {
        *self as int
    }

    open spec fn min_int() -> int {
        i128::MIN as int
    }

    open spec fn max_int() -> int {
        i128::MAX as int
    }

    open spec fn from_int(i: int) -> Self {
        i as i128
    }

    proof fn lemma_bounds(x: Self) {
    }

    proof fn lemma_from_int(i: int) {
    }

    proof fn lemma_injective(x: Self, y: Self) {
    }
}

impl Unit for i128 {
    fn unit() -> (r: Self) {
        1
    }
}

} // verus!
