//! Custom Block.

use vstd::prelude::*;
use vstd::slice::{slice_subrange, slice_to_vec};

use crate::codec::{bytes_u32, group_codec, padding, read_u32, u32_at, write_bytes, write_u32};
use crate::common::Endianness;
use crate::errors::{converted, parsed, ErrorKind, PcapError};
use crate::pcapng::blocks::block_common::{Block, BlockView, PcapNgBlock};
use crate::pcapng::blocks::opt_common::Duplicate;
use crate::pcapng::state::{ticking, InterfaceClock, PcapNgState};

verus! {

/// Custom block
#[derive(Debug, PartialEq, Eq)]
pub struct CustomBlock<const COPIABLE: bool> {
    /// Private Enterprise Number of the entity which defined this block.
    pub pen: u32,
    /// Payload of this block.
    pub payload: Vec<u8>,
}

/// What a `CustomBlock` holds.
pub struct CustomBlockView {
    /// Private Enterprise Number of the entity which defined this block.
    pub pen: u32,
    /// Payload of this block.
    pub payload: Seq<u8>,
}

impl<const COPIABLE: bool> View for CustomBlock<COPIABLE> {
    type V = CustomBlockView;

    open spec fn view(&self) -> CustomBlockView {
        CustomBlockView { pen: self.pen, payload: self.payload@ }
    }
}

impl<const COPIABLE: bool> Duplicate for CustomBlock<COPIABLE> {
    fn duplicate(&self) -> (r: CustomBlock<COPIABLE>) {
        CustomBlock { pen: self.pen, payload: self.payload.clone() }
    }
}

impl<const COPIABLE: bool> Clone for CustomBlock<COPIABLE> {
    fn clone(&self) -> (r: CustomBlock<COPIABLE>)
        ensures
            r@ == self@,
    {
        self.duplicate()
    }
}

impl CustomBlock<true> {
    /// Converts this block's payload into a type that implements [`CustomCopiable`].
    ///
    /// A payload of another Private Enterprise Number is none of `T`; else
    /// the answer is that of `T::from_slice` on the payload.
    pub fn interpret<T: CustomCopiable>(&self) -> (r: Result<Option<T>, PcapError>)
        ensures
            self.pen != T::PEN ==> r matches Ok(None),
            self.pen == T::PEN ==> exists|payload: &[u8]|
                payload@ == self.payload@ && call_ensures(T::from_slice, (payload,), r),
    {
        if self.pen != T::PEN {
            return Ok(None);
        }
        T::from_slice(self.payload.as_slice())
    }
}

impl CustomBlock<false> {
    /// Converts this block's payload into a type that implements [`CustomNonCopiable`].
    ///
    /// A payload of another Private Enterprise Number is none of `T`; else
    /// the answer is that of `T::from_slice` on the payload.
    pub fn interpret<T: CustomNonCopiable>(&self, state: &T::State) -> (r: Result<Option<T>, PcapError>)
        ensures
            self.pen != T::PEN ==> r matches Ok(None),
            self.pen == T::PEN ==> exists|payload: &[u8]|
                payload@ == self.payload@ && call_ensures(T::from_slice, (state, payload), r),
    {
        if self.pen != T::PEN {
            return Ok(None);
        }
        T::from_slice(state, self.payload.as_slice())
    }
}

impl<const COPIABLE: bool> CustomBlock<COPIABLE> {
    /// Returns a version of self with all fields converted to owning versions.
    pub fn into_owned(self) -> (r: CustomBlock<COPIABLE>)
        ensures
            r@ == self@,
    {
        self
    }

    /// The body of the block on the wire.
    pub fn to_body(&self, e: Endianness, clocks: &Vec<InterfaceClock>) -> (r: Result<Vec<u8>, PcapError>)
        ensures
            match (r, Self::body_bytes(self@, e, clocks@)) {
                (Ok(out), Ok(bytes)) => out@ == bytes,
                (Err(err), Err(k)) => err@ == k,
                _ => false,
            },
    {
        let mut out: Vec<u8> = Vec::new();
        write_u32(e, &mut out, self.pen);
        write_bytes(&mut out, self.payload.as_slice());
        Ok(out)
    }
}

/// Common interface for copiable custom block payloads
pub trait CustomCopiable: Sized {
    /// Private Enterprise Number of the entity which defined this payload format.
    const PEN: u32;

    /// Try to parse this payload from a slice.
    fn from_slice(slice: &[u8]) -> (r: Result<Option<Self>, PcapError>);

    /// Write this payload into a writer.
    fn write_to(&self, writer: &mut Vec<u8>) -> (r: Result<(), PcapError>);
}

/// The custom block that comes of a payload's writing: `written` is what
/// the payload's `write_to` answered and `data` what it left in its writer.
/// Where it wrote, the block holds `pen` and `data`; where it failed, its
/// error is handed on.
pub open spec fn custom_block_of(pen: u32, written: Result<(), PcapError>, data: Seq<u8>) -> Result<
    CustomBlockView,
    ErrorKind,
> {
    match written {
        Ok(()) => Ok(CustomBlockView { pen, payload: data }),
        Err(err) => Err(err@),
    }
}

/// Makes the custom block that comes of a payload's writing: `written` is
/// what the payload's `write_to` answered and `data` what it left in its
/// writer.
pub fn custom_block_from<const COPIABLE: bool>(
    pen: u32,
    written: Result<(), PcapError>,
    data: Vec<u8>,
) -> (r: Result<CustomBlock<COPIABLE>, PcapError>)
    ensures
        match (written, r) {
            (Ok(()), Ok(block)) => block@ == (CustomBlockView { pen, payload: data@ }),
            (Err(e), Err(f)) => f@ == e@,
            _ => false,
        },
        converted(r, custom_block_of(pen, written, data@)),
{
    match written {
        Ok(()) => Ok(CustomBlock { pen, payload: data }),
        Err(err) => Err(err),
    }
}

/// Convert the payload `payload` into a copiable [`CustomBlock`]:
/// `T::write_to` is called on the payload with a new, empty writer, and the
/// block is made of the Private Enterprise Number of `T`, of what the call
/// answered and of what it left in the writer.
pub fn into_custom_block<T: CustomCopiable>(payload: T) -> (r: Result<CustomBlock<true>, PcapError>)
    ensures
        exists|writer: &mut Vec<u8>, written: Result<(), PcapError>|
            (*writer)@.len() == 0 && #[trigger] call_ensures(
                T::write_to,
                (&payload, writer),
                written,
            ) && converted(r, custom_block_of(T::PEN, written, (*final(writer))@)),
{
    let mut data: Vec<u8> = Vec::new();
    let written = payload.write_to(&mut data);
    custom_block_from::<true>(T::PEN, written, data)
}

/// Common interface for non-copiable custom block payloads
pub trait CustomNonCopiable: Sized {
    /// State that may be required to parse/write the block.
    type State;

    /// Private Enterprise Number of the entity which defined this payload format.
    const PEN: u32;

    /// Try to parse this payload from a slice.
    fn from_slice(state: &Self::State, slice: &[u8]) -> (r: Result<Option<Self>, PcapError>);

    /// Write this payload into a writer.
    fn write_to(&self, state: &Self::State, writer: &mut Vec<u8>) -> (r: Result<(), PcapError>);
}

/// Convert the payload `payload` into a non-copiable [`CustomBlock`]:
/// `T::write_to` is called on the payload with `state` and a new, empty
/// writer, and the block is made of the Private Enterprise Number of `T`, of
/// what the call answered and of what it left in the writer.
pub fn into_custom_block_with<T: CustomNonCopiable>(payload: T, state: &T::State) -> (r: Result<
    CustomBlock<false>,
    PcapError,
>)
    ensures
        exists|writer: &mut Vec<u8>, written: Result<(), PcapError>|
            (*writer)@.len() == 0 && #[trigger] call_ensures(
                T::write_to,
                (&payload, state, writer),
                written,
            ) && converted(r, custom_block_of(T::PEN, written, (*final(writer))@)),
{
    let mut data: Vec<u8> = Vec::new();
    let written = payload.write_to(state, &mut data);
    custom_block_from::<false>(T::PEN, written, data)
}

impl<const COPIABLE: bool> PcapNgBlock for CustomBlock<COPIABLE> {
    /// The Private Enterprise Number, then the payload: all that is left of
    /// the body, its padding too.
    open spec fn body_of(e: Endianness, clocks: Seq<InterfaceClock>, s: Seq<u8>) -> Result<
        (CustomBlockView, int),
        ErrorKind,
    > {
        if s.len() < 4 {
            Err(ErrorKind::InvalidField)
        } else {
            Ok(
                (
                    CustomBlockView { pen: u32_at(e, s, 0), payload: s.subrange(4, s.len() as int) },
                    s.len() as int,
                ),
            )
        }
    }

    open spec fn body_bytes(block: CustomBlockView, e: Endianness, clocks: Seq<InterfaceClock>) -> Result<
        Seq<u8>,
        ErrorKind,
    > {
        Ok(bytes_u32(e, block.pen) + block.payload)
    }

    open spec fn block_of(block: CustomBlockView) -> BlockView {
        if COPIABLE {
            BlockView::CustomCopiable(block)
        } else {
            BlockView::CustomNonCopiable(block)
        }
    }

    fn from_slice<'a>(e: Endianness, state: &PcapNgState, slice: &'a [u8]) -> (r: Result<
        (&'a [u8], CustomBlock<COPIABLE>),
        PcapError,
    >) {
        if slice.len() < 4 {
            return Err(PcapError::InvalidField("CustomBlock: block length < 4"));
        }
        let pen = read_u32(e, slice, 0).unwrap();
        let payload = slice_to_vec(slice_subrange(slice, 4, slice.len()));
        Ok((slice_subrange(slice, slice.len(), slice.len()), CustomBlock { pen, payload }))
    }

    fn write_to(&self, e: Endianness, state: &PcapNgState, writer: &mut Vec<u8>) -> (r: Result<
        usize,
        PcapError,
    >) {
        match self.to_body(e, state.clocks()) {
            Ok(body) => {
                write_bytes(writer, body.as_slice());
                Ok(body.len())
            },
            Err(err) => Err(err),
        }
    }

    fn into_block(self) -> (r: Block) {
        if COPIABLE {
            Block::CustomCopiable(CustomBlock { pen: self.pen, payload: self.payload })
        } else {
            Block::CustomNonCopiable(CustomBlock { pen: self.pen, payload: self.payload })
        }
    }
}

/// A block that was parsed from a body that ends on a 32-bit boundary, in
/// whatever byte order, can be written in every byte order; what is written
/// ends on a 32-bit boundary and is parsed as the same block again.
pub proof fn lemma_custom_round_trip<const COPIABLE: bool>(
    e: Endianness,
    other: Endianness,
    clocks: Seq<InterfaceClock>,
    s: Seq<u8>,
)
    requires
        ticking(clocks),
        s.len() % 4 == 0,
        CustomBlock::<COPIABLE>::body_of(e, clocks, s) is Ok,
    ensures
        ({
            let block = CustomBlock::<COPIABLE>::body_of(e, clocks, s).unwrap().0;
            match CustomBlock::<COPIABLE>::body_bytes(block, other, clocks) {
                Err(_) => false,
                Ok(bytes) => bytes.len() % 4 == 0 && CustomBlock::<COPIABLE>::body_of(other, clocks, bytes) is Ok
                    && CustomBlock::<COPIABLE>::body_of(other, clocks, bytes).unwrap().0 == block,
            }
        }),
{
    broadcast use group_codec;

    let block = CustomBlock::<COPIABLE>::body_of(e, clocks, s).unwrap().0;
    let bytes = CustomBlock::<COPIABLE>::body_bytes(block, other, clocks).unwrap();
    assert(bytes.subrange(4, bytes.len() as int) =~= block.payload);
}

} // verus!
