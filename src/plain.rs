use crate::Error;
use vstd::prelude::*;

verus! {

broadcast use vstd::layout::layout_of_primitives;

/// The error of bytemuck's casts; carried through and mapped to [`Error::CastFailed`].
#[verifier::external_type_specification]
#[verifier::external_body]
pub struct ExPodCastError(bytemuck::PodCastError);

/// A fixed-size value with a padding-free representation, written and read as the bytes
/// it has in memory.
///
/// The layout is the one of the running machine (its endianness and word size): bytes
/// written by one build can be read back by a build for the same target.
pub trait Plain: Sized + Copy {
    /// How many bytes a value occupies.
    spec fn width() -> nat;

    /// The bytes of `self` in memory.
    spec fn layout(self) -> Seq<u8>;

    /// The value whose in-memory bytes are `b`, for `b` of `width()` bytes.
    spec fn from_layout(b: Seq<u8>) -> Self;

    /// The size of the type in bytes.
    fn size() -> (r: usize)
        ensures
            r as nat == Self::width(),
            r > 0,
    ;

    /// The in-memory bytes of `self`; reading them back gives `self`.
    fn to_bytes(&self) -> (r: Vec<u8>)
        ensures
            r@ == self.layout(),
            r@.len() == Self::width(),
            Self::from_layout(r@) == *self,
    ;

    /// Reinterprets `b` as a value; fails unless `b` holds exactly `width()` bytes.
    fn cast(b: &[u8]) -> (r: Result<Self, Error>)
        ensures
            b@.len() == Self::width() ==> r == Ok::<Self, Error>(Self::from_layout(b@)),
            b@.len() != Self::width() ==> r == Err::<Self, Error>(Error::CastFailed),
    ;
}

impl Plain for u8 {
    open spec fn width() -> nat {
        1
    }

    open spec fn layout(self) -> Seq<u8> {
        seq![self]
    }

    open spec fn from_layout(b: Seq<u8>) -> u8 {
        b[0]
    }

    fn size() -> (r: usize) {
        1
    }

    fn to_bytes(&self) -> (r: Vec<u8>) {
        vec![*self]
    }

    fn cast(b: &[u8]) -> (r: Result<u8, Error>) {
        if b.len() == 1 {
            Ok(b[0])
        } else {
            Err(Error::CastFailed)
        }
    }
}

/// The in-memory bytes of a `u32`, as `bytemuck::bytes_of` gives them.
pub uninterp spec fn native_u32_bytes(v: u32) -> Seq<u8>;

/// The `u32` whose in-memory bytes are `b`, as `bytemuck::try_pod_read_unaligned` reads it.
pub uninterp spec fn native_u32_value(b: Seq<u8>) -> u32;

/// Relies on `bytemuck::bytes_of`: the 4 bytes of `v` as they lie in memory, which the
/// unaligned read of `bytemuck::try_pod_read_unaligned` turns back into `v`.
#[verifier::external_body]
fn u32_bytes(v: &u32) -> (r: Vec<u8>)
    ensures
        r@ == native_u32_bytes(*v),
        r@.len() == 4,
        native_u32_value(r@) == *v,
{
    bytemuck::bytes_of(v).to_vec()
}

/// Relies on `bytemuck::try_pod_read_unaligned`: `SizeMismatch` unless `b` has 4 bytes,
/// else the value those bytes hold in memory.
#[verifier::external_body]
fn u32_read(b: &[u8]) -> (r: Result<u32, bytemuck::PodCastError>)
    ensures
        b@.len() == 4 ==> r.is_ok() && r.unwrap() == native_u32_value(b@),
        b@.len() != 4 ==> r.is_err(),
{
    bytemuck::try_pod_read_unaligned::<u32>(b)
}

impl Plain for u32 {
    open spec fn width() -> nat {
        4
    }

    open spec fn layout(self) -> Seq<u8> {
        native_u32_bytes(self)
    }

    open spec fn from_layout(b: Seq<u8>) -> u32 {
        native_u32_value(b)
    }

    fn size() -> (r: usize) {
        core::mem::size_of::<u32>()
    }

    fn to_bytes(&self) -> (r: Vec<u8>) {
        u32_bytes(self)
    }

    fn cast(b: &[u8]) -> (r: Result<u32, Error>) {
        match u32_read(b) {
            Ok(v) => Ok(v),
            Err(_) => Err(Error::CastFailed),
        }
    }
}

/// The in-memory bytes of a `usize`, as `bytemuck::bytes_of` gives them.
pub uninterp spec fn native_usize_bytes(v: usize) -> Seq<u8>;

/// The `usize` whose in-memory bytes are `b`, as `bytemuck::try_pod_read_unaligned` reads it.
pub uninterp spec fn native_usize_value(b: Seq<u8>) -> usize;

/// Relies on `bytemuck::bytes_of`: the bytes of `v` as they lie in memory, one per byte
/// of the word, which the unaligned read of `bytemuck::try_pod_read_unaligned` turns back
/// into `v`.
#[verifier::external_body]
fn usize_bytes(v: &usize) -> (r: Vec<u8>)
    ensures
        r@ == native_usize_bytes(*v),
        r@.len() == vstd::layout::size_of::<usize>(),
        native_usize_value(r@) == *v,
{
    bytemuck::bytes_of(v).to_vec()
}

/// Relies on `bytemuck::try_pod_read_unaligned`: `SizeMismatch` unless `b` has as many
/// bytes as a word, else the value those bytes hold in memory.
#[verifier::external_body]
fn usize_read(b: &[u8]) -> (r: Result<usize, bytemuck::PodCastError>)
    ensures
        b@.len() == vstd::layout::size_of::<usize>() ==> r.is_ok() && r.unwrap()
            == native_usize_value(b@),
        b@.len() != vstd::layout::size_of::<usize>() ==> r.is_err(),
{
    bytemuck::try_pod_read_unaligned::<usize>(b)
}

impl Plain for usize {
    open spec fn width() -> nat {
        vstd::layout::size_of::<usize>()
    }

    open spec fn layout(self) -> Seq<u8> {
        native_usize_bytes(self)
    }

    open spec fn from_layout(b: Seq<u8>) -> usize {
        native_usize_value(b)
    }

    fn size() -> (r: usize) {
        core::mem::size_of::<usize>()
    }

    fn to_bytes(&self) -> (r: Vec<u8>) {
        usize_bytes(self)
    }

    fn cast(b: &[u8]) -> (r: Result<usize, Error>) {
        match usize_read(b) {
            Ok(v) => Ok(v),
            Err(_) => Err(Error::CastFailed),
        }
    }
}

} // verus!
