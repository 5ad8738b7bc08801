//! A trait that no other crate can name, to close public traits to outside
//! implementations.

use vstd::prelude::*;

verus! {

pub trait Sealed {}

impl Sealed for u8 {}
impl Sealed for u16 {}
impl Sealed for u32 {}
impl Sealed for u64 {}
impl Sealed for u128 {}
impl Sealed for usize {}
impl Sealed for i8 {}
impl Sealed for i16 {}
impl Sealed for i32 {}
impl Sealed for i64 {}
impl Sealed for i128 {}
impl Sealed for isize {}

impl<'a> Sealed for &'a str {}

impl Sealed for String {}

} // verus!
