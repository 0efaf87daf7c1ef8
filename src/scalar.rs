use vstd::prelude::*;
use vstd::string::StringSliceAdditionalSpecFns;
use vstd::bytes::{spec_u16_to_le_bytes, spec_u32_to_le_bytes, spec_u64_to_le_bytes, u16_to_le_bytes, u32_to_le_bytes, u64_to_le_bytes};
use crate::encoder::SerializerState;
use crate::model::EncoderModel;

verus! {

/// A value that knows how to write itself into an encoder.
///
/// Integers are written as their little-endian bytes at their own width
/// (`usize` and `isize` at 8 bytes, signed values in two's complement);
/// `bool` as one byte, 1 or 0.
pub trait Serializable {
    /// The encoder's state after writing this value into state `m`.
    spec fn written_into(&self, m: EncoderModel) -> EncoderModel;

    /// Whether this value can be written in state `m`.
    spec fn fits_into(&self, m: EncoderModel) -> bool;

    fn write_serialized<W: std::io::Write>(&self, state: &mut SerializerState<W>) -> (r: Result<(), std::io::Error>)
        requires
            old(state).inv(),
            !old(state)@.finalized,
            self.fits_into(old(state)@),
        ensures
            final(state).inv(),
            r is Ok ==> final(state)@ == self.written_into(old(state)@),
            r is Err ==> old(state)@.stopped_toward(final(state)@, self.written_into(old(state)@)),
    ;
}

impl Serializable for u8 {
    open spec fn written_into(&self, m: EncoderModel) -> EncoderModel {
        m.with_fixed(seq![*self])
    }

    open spec fn fits_into(&self, m: EncoderModel) -> bool {
        true
    }

    fn write_serialized<W: std::io::Write>(&self, state: &mut SerializerState<W>) -> (r: Result<(), std::io::Error>) {
        let b: Vec<u8> = vec![*self];
        assert(b@ =~= seq![*self]);
        state.add_fixed_blob(b.as_slice())
    }
}

impl Serializable for u16 {
    open spec fn written_into(&self, m: EncoderModel) -> EncoderModel {
        m.with_fixed(spec_u16_to_le_bytes(*self))
    }

    open spec fn fits_into(&self, m: EncoderModel) -> bool {
        true
    }

    fn write_serialized<W: std::io::Write>(&self, state: &mut SerializerState<W>) -> (r: Result<(), std::io::Error>) {
        let b = u16_to_le_bytes(*self);
        state.add_fixed_blob(b.as_slice())
    }
}

impl Serializable for u32 {
    open spec fn written_into(&self, m: EncoderModel) -> EncoderModel {
        m.with_fixed(spec_u32_to_le_bytes(*self))
    }

    open spec fn fits_into(&self, m: EncoderModel) -> bool {
        true
    }

    fn write_serialized<W: std::io::Write>(&self, state: &mut SerializerState<W>) -> (r: Result<(), std::io::Error>) {
        let b = u32_to_le_bytes(*self);
        state.add_fixed_blob(b.as_slice())
    }
}

impl Serializable for u64 {
    open spec fn written_into(&self, m: EncoderModel) -> EncoderModel {
        m.with_fixed(spec_u64_to_le_bytes(*self))
    }

    open spec fn fits_into(&self, m: EncoderModel) -> bool {
        true
    }

    fn write_serialized<W: std::io::Write>(&self, state: &mut SerializerState<W>) -> (r: Result<(), std::io::Error>) {
        let b = u64_to_le_bytes(*self);
        state.add_fixed_blob(b.as_slice())
    }
}

impl Serializable for usize {
    open spec fn written_into(&self, m: EncoderModel) -> EncoderModel {
        m.with_fixed(spec_u64_to_le_bytes(*self as u64))
    }

    open spec fn fits_into(&self, m: EncoderModel) -> bool {
        true
    }

    fn write_serialized<W: std::io::Write>(&self, state: &mut SerializerState<W>) -> (r: Result<(), std::io::Error>) {
        let b = u64_to_le_bytes(*self as u64);
        state.add_fixed_blob(b.as_slice())
    }
}

impl Serializable for i8 {
    open spec fn written_into(&self, m: EncoderModel) -> EncoderModel {
        m.with_fixed(seq![*self as u8])
    }

    open spec fn fits_into(&self, m: EncoderModel) -> bool {
        true
    }

    fn write_serialized<W: std::io::Write>(&self, state: &mut SerializerState<W>) -> (r: Result<(), std::io::Error>) {
        let b: Vec<u8> = vec![#[verifier::truncate] (*self as u8)];
        assert(b@ =~= seq![*self as u8]);
        state.add_fixed_blob(b.as_slice())
    }
}

impl Serializable for i16 {
    open spec fn written_into(&self, m: EncoderModel) -> EncoderModel {
        m.with_fixed(spec_u16_to_le_bytes(*self as u16))
    }

    open spec fn fits_into(&self, m: EncoderModel) -> bool {
        true
    }

    fn write_serialized<W: std::io::Write>(&self, state: &mut SerializerState<W>) -> (r: Result<(), std::io::Error>) {
        let b = u16_to_le_bytes(#[verifier::truncate] (*self as u16));
        state.add_fixed_blob(b.as_slice())
    }
}

impl Serializable for i32 {
    open spec fn written_into(&self, m: EncoderModel) -> EncoderModel {
        m.with_fixed(spec_u32_to_le_bytes(*self as u32))
    }

    open spec fn fits_into(&self, m: EncoderModel) -> bool {
        true
    }

    fn write_serialized<W: std::io::Write>(&self, state: &mut SerializerState<W>) -> (r: Result<(), std::io::Error>) {
        let b = u32_to_le_bytes(#[verifier::truncate] (*self as u32));
        state.add_fixed_blob(b.as_slice())
    }
}

impl Serializable for i64 {
    open spec fn written_into(&self, m: EncoderModel) -> EncoderModel {
        m.with_fixed(spec_u64_to_le_bytes(*self as u64))
    }

    open spec fn fits_into(&self, m: EncoderModel) -> bool {
        true
    }

    fn write_serialized<W: std::io::Write>(&self, state: &mut SerializerState<W>) -> (r: Result<(), std::io::Error>) {
        let b = u64_to_le_bytes(#[verifier::truncate] (*self as u64));
        state.add_fixed_blob(b.as_slice())
    }
}

impl Serializable for isize {
    open spec fn written_into(&self, m: EncoderModel) -> EncoderModel {
        m.with_fixed(spec_u64_to_le_bytes(*self as u64))
    }

    open spec fn fits_into(&self, m: EncoderModel) -> bool {
        true
    }

    fn write_serialized<W: std::io::Write>(&self, state: &mut SerializerState<W>) -> (r: Result<(), std::io::Error>) {
        let b = u64_to_le_bytes(#[verifier::truncate] (*self as u64));
        state.add_fixed_blob(b.as_slice())
    }
}

impl Serializable for bool {
    open spec fn written_into(&self, m: EncoderModel) -> EncoderModel {
        m.with_fixed(if *self { seq![1u8] } else { seq![0u8] })
    }

    open spec fn fits_into(&self, m: EncoderModel) -> bool {
        true
    }

    fn write_serialized<W: std::io::Write>(&self, state: &mut SerializerState<W>) -> (r: Result<(), std::io::Error>) {
        let b: Vec<u8> = if *self { vec![1u8] } else { vec![0u8] };
        assert(b@ =~= (if *self { seq![1u8] } else { seq![0u8] }));
        state.add_fixed_blob(b.as_slice())
    }
}

/// Text written with `add_var_blob` on its UTF-8 bytes.
pub struct VarStr<'a>(pub &'a str);

/// Text written with `add_fixed_blob` on its UTF-8 bytes; the reader must
/// know its length from elsewhere.
pub struct FixedStr<'a>(pub &'a str);

impl<'a> Serializable for VarStr<'a> {
    open spec fn written_into(&self, m: EncoderModel) -> EncoderModel {
        m.with_var(self.0.spec_bytes())
    }

    open spec fn fits_into(&self, m: EncoderModel) -> bool {
        m.var_fits(self.0.spec_bytes().len())
    }

    fn write_serialized<W: std::io::Write>(&self, state: &mut SerializerState<W>) -> (r: Result<(), std::io::Error>) {
        let VarStr(s) = *self;
        state.add_var_blob(s.as_bytes())
    }
}

impl<'a> Serializable for FixedStr<'a> {
    open spec fn written_into(&self, m: EncoderModel) -> EncoderModel {
        m.with_fixed(self.0.spec_bytes())
    }

    open spec fn fits_into(&self, m: EncoderModel) -> bool {
        true
    }

    fn write_serialized<W: std::io::Write>(&self, state: &mut SerializerState<W>) -> (r: Result<(), std::io::Error>) {
        let FixedStr(s) = *self;
        state.add_fixed_blob(s.as_bytes())
    }
}

} // verus!
