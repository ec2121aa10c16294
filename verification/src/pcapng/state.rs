//! What a PcapNg stream leaves behind for the blocks that follow: the
//! section, its interfaces and their clocks.

use vstd::prelude::*;

use crate::codec::{bytes_u32, group_codec, read_u32, u32_at, write_u32};
use crate::common::{Duration, Endianness};
use crate::errors::{ErrorKind, PcapError};
use crate::pcapng::blocks::block_common::{
    typed_of, Block, BlockView, RawBlock, RawBlockView, INTERFACE_DESCRIPTION_BLOCK,
    SECTION_HEADER_BLOCK,
};
use crate::pcapng::blocks::interface_description::{
    clock_of, InterfaceDescriptionBlock, InterfaceDescriptionBlockView,
};
use crate::pcapng::blocks::opt_common::{views, Duplicate};
use crate::pcapng::blocks::section_header::{
    default_section, SectionHeaderBlock, SectionHeaderBlockView,
};

verus! {

/// How the timestamps of an interface count time: the length of a tick in
/// nanoseconds, and the seconds to add to every timestamp.
#[derive(Copy, Clone, Debug, PartialEq, Eq, Structural)]
pub struct InterfaceClock {
    /// Nanoseconds per tick.
    pub tick_nanos: u32,
    /// Seconds between 1970-01-01 00:00:00 UTC and tick zero.
    pub offset_secs: u64,
}

/// Whether every clock of `clocks` has ticks of at least a nanosecond.
pub open spec fn ticking(clocks: Seq<InterfaceClock>) -> bool {
    forall|i: int| 0 <= i < clocks.len() ==> (#[trigger] clocks[i]).tick_nanos > 0
}

/// The time that `ticks` ticks of `clock` stand for.
#[verifier::opaque]
pub open spec fn timestamp_of(clock: InterfaceClock, ticks: u64) -> Duration {
    Duration { nanos: (ticks * clock.tick_nanos + clock.offset_secs * 1_000_000_000) as u128 }
}

/// The number of whole ticks of `clock` in the time `d`; `TimestampTooBig`
/// where `d` lies before tick zero or the number is beyond 64 bits.
#[verifier::opaque]
pub open spec fn ticks_of(clock: InterfaceClock, d: Duration) -> Result<u64, ErrorKind> {
    let base = clock.offset_secs * 1_000_000_000;
    if clock.tick_nanos == 0 || d.nanos < base {
        Err(ErrorKind::TimestampTooBig)
    } else {
        let ticks = (d.nanos - base) / (clock.tick_nanos as int);
        if ticks > u64::MAX {
            Err(ErrorKind::TimestampTooBig)
        } else {
            Ok(ticks as u64)
        }
    }
}

/// The number of ticks in the eight bytes of `s` at `at`: the upper half
/// first, then the lower, each in byte order `e`.
pub open spec fn ticks_at(e: Endianness, s: Seq<u8>, at: int) -> u64 {
    (u32_at(e, s, at) as int * 0x1_0000_0000 + u32_at(e, s, at + 4) as int) as u64
}

/// The eight bytes that hold `ticks`: the upper half first, then the lower,
/// each in byte order `e`.
pub open spec fn ticks_bytes(e: Endianness, ticks: u64) -> Seq<u8> {
    bytes_u32(e, (ticks / 0x1_0000_0000) as u32) + bytes_u32(e, (ticks % 0x1_0000_0000) as u32)
}

/// The time in the eight bytes of `s` at `at`, on the clock of the interface
/// `interface_id`: `IncompleteBuffer` where `s` ends before them,
/// `InvalidInterfaceId` where `clocks` has no such interface.
pub open spec fn decoded_timestamp(
    e: Endianness,
    clocks: Seq<InterfaceClock>,
    interface_id: u32,
    s: Seq<u8>,
    at: int,
) -> Result<Duration, ErrorKind> {
    if s.len() < at + 8 {
        Err(ErrorKind::IncompleteBuffer)
    } else if interface_id >= clocks.len() {
        Err(ErrorKind::InvalidInterfaceId(interface_id))
    } else {
        Ok(timestamp_of(clocks[interface_id as int], ticks_at(e, s, at)))
    }
}

/// The eight bytes that hold the time `d` on the clock of the interface
/// `interface_id`: `InvalidInterfaceId` where `clocks` has no such interface,
/// `TimestampTooBig` where the clock cannot tell `d`.
pub open spec fn encoded_timestamp(
    e: Endianness,
    clocks: Seq<InterfaceClock>,
    interface_id: u32,
    d: Duration,
) -> Result<Seq<u8>, ErrorKind> {
    if interface_id >= clocks.len() {
        Err(ErrorKind::InvalidInterfaceId(interface_id))
    } else {
        match ticks_of(clocks[interface_id as int], d) {
            Ok(ticks) => Ok(ticks_bytes(e, ticks)),
            Err(k) => Err(k),
        }
    }
}

/// The time that `ticks` ticks of `clock` stand for.
pub fn ticks_to_timestamp(clock: InterfaceClock, ticks: u64) -> (r: Duration)
    ensures
        r == timestamp_of(clock, ticks),
{
    reveal(timestamp_of);
    assert(ticks * clock.tick_nanos <= 0xFFFF_FFFF_FFFF_FFFF * 0xFFFF_FFFF) by (nonlinear_arith)
        requires
            ticks <= 0xFFFF_FFFF_FFFF_FFFF,
            clock.tick_nanos <= 0xFFFF_FFFF,
    ;
    let scaled: u128 = ticks as u128 * clock.tick_nanos as u128;
    let base: u128 = clock.offset_secs as u128 * 1_000_000_000u128;
    Duration { nanos: scaled + base }
}

/// The number of whole ticks of `clock` in the time `d`.
pub fn timestamp_to_ticks(clock: InterfaceClock, d: Duration) -> (r: Result<u64, PcapError>)
    ensures
        match r {
            Ok(ticks) => ticks_of(clock, d) == Ok::<u64, ErrorKind>(ticks),
            Err(e) => ticks_of(clock, d) == Err::<u64, ErrorKind>(e@),
        },
{
    reveal(ticks_of);
    let base: u128 = clock.offset_secs as u128 * 1_000_000_000u128;
    if clock.tick_nanos == 0 || d.nanos < base {
        return Err(PcapError::TimestampTooBig);
    }
    let ticks: u128 = (d.nanos - base) / (clock.tick_nanos as u128);
    if ticks > u64::MAX as u128 {
        return Err(PcapError::TimestampTooBig);
    }
    Ok(ticks as u64)
}

/// Reads the time in the eight bytes of `slice` at `at` on the clock of the
/// interface `interface_id`.
pub fn decode_timestamp_at(
    e: Endianness,
    clocks: &Vec<InterfaceClock>,
    interface_id: u32,
    slice: &[u8],
    at: usize,
) -> (r: Result<Duration, PcapError>)
    ensures
        match r {
            Ok(d) => decoded_timestamp(e, clocks@, interface_id, slice@, at as int) == Ok::<
                Duration,
                ErrorKind,
            >(d),
            Err(err) => decoded_timestamp(e, clocks@, interface_id, slice@, at as int) == Err::<
                Duration,
                ErrorKind,
            >(err@),
        },
{
    if at > slice.len() || slice.len() - at < 8 {
        return Err(PcapError::IncompleteBuffer);
    }
    let high = read_u32(e, slice, at).unwrap() as u64;
    let low = read_u32(e, slice, at + 4).unwrap() as u64;
    let ticks: u64 = high * 0x1_0000_0000 + low;
    if interface_id as usize >= clocks.len() {
        return Err(PcapError::InvalidInterfaceId(interface_id));
    }
    Ok(ticks_to_timestamp(clocks[interface_id as usize], ticks))
}

/// Appends the eight bytes that hold the time `d` on the clock of the
/// interface `interface_id`; nothing is written where that fails.
pub fn encode_timestamp_to(
    e: Endianness,
    clocks: &Vec<InterfaceClock>,
    interface_id: u32,
    d: Duration,
    writer: &mut Vec<u8>,
) -> (r: Result<(), PcapError>)
    ensures
        match r {
            Ok(()) => encoded_timestamp(e, clocks@, interface_id, d) is Ok && final(writer)@
                == old(writer)@ + encoded_timestamp(e, clocks@, interface_id, d).unwrap(),
            Err(err) => encoded_timestamp(e, clocks@, interface_id, d) == Err::<
                Seq<u8>,
                ErrorKind,
            >(err@) && final(writer)@ == old(writer)@,
        },
        encoded_timestamp(e, clocks@, interface_id, d) matches Ok(bytes) ==> bytes.len() == 8,
{
    broadcast use group_codec;

    if interface_id as usize >= clocks.len() {
        return Err(PcapError::InvalidInterfaceId(interface_id));
    }
    let ticks = match timestamp_to_ticks(clocks[interface_id as usize], d) {
        Ok(t) => t,
        Err(err) => { return Err(err); },
    };
    write_u32(e, writer, (ticks / 0x1_0000_0000) as u32);
    write_u32(e, writer, (ticks % 0x1_0000_0000) as u32);
    assert(writer@ =~= old(writer)@ + ticks_bytes(e, ticks));
    Ok(())
}

/// State that must be maintained whilst reading or writing a PcapNg stream.
///
/// This state is necessary because the encoding of blocks depends on
/// information seen earlier in the stream, such as the byte order of the
/// section header and the clock of each interface description.
#[derive(Debug)]
pub struct PcapNgState {
    /// Current section of the pcapng
    section: SectionHeaderBlock,
    /// List of the interfaces of the current section of the pcapng
    interfaces: Vec<InterfaceDescriptionBlock>,
    /// Clocks corresponding to the interfaces
    clocks: Vec<InterfaceClock>,
}

/// What a `PcapNgState` holds.
pub struct PcapNgStateView {
    /// Current section of the pcapng
    pub section: SectionHeaderBlockView,
    /// List of the interfaces of the current section, in the order in which
    /// they came
    pub interfaces: Seq<InterfaceDescriptionBlockView>,
    /// Clocks corresponding to the interfaces
    pub clocks: Seq<InterfaceClock>,
}

impl View for PcapNgState {
    type V = PcapNgStateView;

    closed spec fn view(&self) -> PcapNgStateView {
        PcapNgStateView {
            section: self.section@,
            interfaces: views(self.interfaces@),
            clocks: self.clocks@,
        }
    }
}

/// Whether the clocks of the state `v` are those of its interfaces, one for
/// one.
pub open spec fn consistent(v: PcapNgStateView) -> bool {
    &&& v.clocks.len() == v.interfaces.len()
    &&& forall|i: int|
        0 <= i < v.interfaces.len() ==> clock_of(#[trigger] v.interfaces[i]) == Ok::<
            InterfaceClock,
            ErrorKind,
        >(v.clocks[i])
}

/// The state before any block: the default section header and no interface.
pub open spec fn initial_state() -> PcapNgStateView {
    PcapNgStateView {
        section: default_section(Endianness::Big),
        interfaces: Seq::empty(),
        clocks: Seq::empty(),
    }
}

/// The state that the block `block` leaves behind the state `v`: a section
/// header takes the place of the section and empties the table of
/// interfaces; an interface description goes to the end of the table with
/// its clock, or is refused with `InvalidTsResolution`; every other block
/// leaves the state as it is.
pub open spec fn updated(v: PcapNgStateView, block: BlockView) -> Result<PcapNgStateView, ErrorKind> {
    match block {
        BlockView::SectionHeader(section) => Ok(
            PcapNgStateView { section, interfaces: Seq::empty(), clocks: Seq::empty() },
        ),
        BlockView::InterfaceDescription(interface) => match clock_of(interface) {
            Ok(clock) => Ok(
                PcapNgStateView {
                    section: v.section,
                    interfaces: v.interfaces.push(interface),
                    clocks: v.clocks.push(clock),
                },
            ),
            Err(k) => Err(k),
        },
        _ => Ok(v),
    }
}

/// The state that the raw block `raw` leaves behind the state `v`: that of
/// the block in it where it is a section header or an interface description,
/// and `v` itself for every other type, whatever the body holds.
pub open spec fn updated_raw(v: PcapNgStateView, e: Endianness, raw: RawBlockView) -> Result<
    PcapNgStateView,
    ErrorKind,
> {
    if raw.type_ == SECTION_HEADER_BLOCK || raw.type_ == INTERFACE_DESCRIPTION_BLOCK {
        match typed_of(e, v.clocks, raw) {
            Ok(block) => updated(v, block),
            Err(k) => Err(k),
        }
    } else {
        Ok(v)
    }
}

impl Default for PcapNgState {
    /// The state before any block.
    fn default() -> (r: PcapNgState)
        ensures
            r@ == initial_state(),
            consistent(r@),
    {
        let r = PcapNgState {
            section: SectionHeaderBlock::default(),
            interfaces: Vec::new(),
            clocks: Vec::new(),
        };
        assert(r@.interfaces =~= Seq::empty());
        r
    }
}

impl PcapNgState {
    /// Update the state based on the next [Block].
    pub fn update_for_block(&mut self, block: &Block) -> (r: Result<(), PcapError>)
        ensures
            match r {
                Ok(()) => updated(old(self)@, block@) == Ok::<PcapNgStateView, ErrorKind>(
                    final(self)@,
                ),
                Err(err) => updated(old(self)@, block@) == Err::<PcapNgStateView, ErrorKind>(err@)
                    && final(self)@ == old(self)@,
            },
            consistent(old(self)@) ==> consistent(final(self)@),
    {
        match block {
            Block::SectionHeader(blk) => {
                self.section = blk.duplicate();
                self.interfaces = Vec::new();
                self.clocks = Vec::new();
                assert(self@.interfaces =~= Seq::empty());
                Ok(())
            },
            Block::InterfaceDescription(blk) => {
                let clock = match blk.clock() {
                    Ok(clock) => clock,
                    Err(err) => { return Err(err); },
                };
                let interface = blk.duplicate();
                proof {
                    assert(views(self.interfaces@.push(interface)) =~= views(self.interfaces@).push(
                        interface@,
                    ));
                }
                self.clocks.push(clock);
                self.interfaces.push(interface);
                Ok(())
            },
            _ => Ok(()),
        }
    }

    /// Update the state based on the next [RawBlock].
    pub fn update_for_raw_block(&mut self, e: Endianness, raw_block: &RawBlock) -> (r: Result<
        (),
        PcapError,
    >)
        ensures
            match r {
                Ok(()) => updated_raw(old(self)@, e, raw_block@) == Ok::<PcapNgStateView, ErrorKind>(
                    final(self)@,
                ),
                Err(err) => updated_raw(old(self)@, e, raw_block@) == Err::<
                    PcapNgStateView,
                    ErrorKind,
                >(err@) && final(self)@ == old(self)@,
            },
            consistent(old(self)@) ==> consistent(final(self)@),
    {
        if raw_block.type_ == SECTION_HEADER_BLOCK || raw_block.type_ == INTERFACE_DESCRIPTION_BLOCK {
            let block = match Block::try_from_raw_parts(
                e,
                self,
                raw_block.type_,
                raw_block.initial_len,
                raw_block.body.as_slice(),
            ) {
                Ok(block) => block,
                Err(err) => { return Err(err); },
            };
            self.update_for_block(&block)
        } else {
            Ok(())
        }
    }

    /// Reads the time in the first eight bytes of `slice` on the clock of
    /// the interface `interface_id`.
    pub fn decode_timestamp(&self, e: Endianness, interface_id: u32, slice: &[u8]) -> (r: Result<
        Duration,
        PcapError,
    >)
        ensures
            match r {
                Ok(d) => decoded_timestamp(e, self@.clocks, interface_id, slice@, 0) == Ok::<
                    Duration,
                    ErrorKind,
                >(d),
                Err(err) => decoded_timestamp(e, self@.clocks, interface_id, slice@, 0) == Err::<
                    Duration,
                    ErrorKind,
                >(err@),
            },
    {
        decode_timestamp_at(e, &self.clocks, interface_id, slice, 0)
    }

    /// Appends the eight bytes that hold the time `timestamp` on the clock
    /// of the interface `interface_id`; nothing is written where that fails.
    pub fn encode_timestamp(
        &self,
        e: Endianness,
        interface_id: u32,
        timestamp: Duration,
        writer: &mut Vec<u8>,
    ) -> (r: Result<(), PcapError>)
        ensures
            match r {
                Ok(()) => encoded_timestamp(e, self@.clocks, interface_id, timestamp) is Ok
                    && final(writer)@ == old(writer)@ + encoded_timestamp(
                    e,
                    self@.clocks,
                    interface_id,
                    timestamp,
                ).unwrap(),
                Err(err) => encoded_timestamp(e, self@.clocks, interface_id, timestamp) == Err::<
                    Seq<u8>,
                    ErrorKind,
                >(err@) && final(writer)@ == old(writer)@,
            },
    {
        encode_timestamp_to(e, &self.clocks, interface_id, timestamp, writer)
    }

    /// Returns the current [`SectionHeaderBlock`].
    pub fn section(&self) -> (r: &SectionHeaderBlock)
        ensures
            r@ == self@.section,
    {
        &self.section
    }

    /// Returns all the current [`InterfaceDescriptionBlock`].
    pub fn interfaces(&self) -> (r: &Vec<InterfaceDescriptionBlock>)
        ensures
            views(r@) == self@.interfaces,
    {
        &self.interfaces
    }

    /// Returns the clocks of the current interfaces.
    pub fn clocks(&self) -> (r: &Vec<InterfaceClock>)
        ensures
            r@ == self@.clocks,
    {
        &self.clocks
    }
}

/// A clock tells again the ticks that it was told.
pub proof fn lemma_ticks_read_back(e: Endianness, ticks: u64, clock: InterfaceClock)
    requires
        clock.tick_nanos > 0,
    ensures
        ticks_at(e, ticks_bytes(e, ticks), 0) == ticks,
        ticks_bytes(e, ticks).len() == 8,
        ticks_of(clock, timestamp_of(clock, ticks)) == Ok::<u64, ErrorKind>(ticks),
{
    broadcast use group_codec;

    reveal(timestamp_of);
    reveal(ticks_of);

    let t = clock.tick_nanos as int;
    assert(ticks * t <= 0xFFFF_FFFF_FFFF_FFFF * 0xFFFF_FFFF) by (nonlinear_arith)
        requires
            0 <= ticks <= 0xFFFF_FFFF_FFFF_FFFF,
            0 < t <= 0xFFFF_FFFF,
    ;
    assert((ticks * t) / t == ticks) by (nonlinear_arith)
        requires
            t > 0,
    ;
}

/// A time that was written and read back is the time itself, cut down to a
/// whole number of ticks since tick zero: for every clock with ticks of at
/// least a nanosecond and every time that the clock can tell.
pub proof fn lemma_timestamp_round_trip(clock: InterfaceClock, d: Duration)
    requires
        clock.tick_nanos > 0,
        ticks_of(clock, d) is Ok,
    ensures
        ({
            let since = d.nanos - clock.offset_secs * 1_000_000_000;
            timestamp_of(clock, ticks_of(clock, d).unwrap()).nanos == d.nanos - since % (
            clock.tick_nanos as int)
        }),
        clock.offset_secs == 0 ==> timestamp_of(clock, ticks_of(clock, d).unwrap()).nanos
            == d.nanos - d.nanos % (clock.tick_nanos as u128),
{
    reveal(timestamp_of);
    reveal(ticks_of);
    let t = clock.tick_nanos as int;
    let since = d.nanos - clock.offset_secs * 1_000_000_000;
    assert(since == t * (since / t) + since % t && 0 <= since % t < t) by (nonlinear_arith)
        requires
            t > 0,
            since >= 0,
    ;
    assert((since / t) * t == t * (since / t)) by (nonlinear_arith);
}

/// The clocks of a consistent state have ticks of at least a nanosecond.
pub proof fn lemma_consistent_clocks_tick(v: PcapNgStateView)
    requires
        consistent(v),
    ensures
        ticking(v.clocks),
        v.clocks.len() == v.interfaces.len(),
{
    assert forall|i: int| 0 <= i < v.clocks.len() implies (#[trigger] v.clocks[i]).tick_nanos > 0 by {
        assert(clock_of(v.interfaces[i]) == Ok::<InterfaceClock, ErrorKind>(v.clocks[i]));
    }
}

/// A new section forgets the interfaces: behind a section header the table
/// of interfaces is empty, whatever it held.
pub proof fn lemma_section_clears_interfaces(v: PcapNgStateView, block: BlockView)
    requires
        block is SectionHeader,
    ensures
        updated(v, block) is Ok,
        updated(v, block).unwrap().interfaces.len() == 0,
        updated(v, block).unwrap().clocks.len() == 0,
        consistent(updated(v, block).unwrap()),
{
}

/// What a block tells a consistent state leaves it consistent.
pub proof fn lemma_updated_is_consistent(v: PcapNgStateView, block: BlockView)
    requires
        consistent(v),
        updated(v, block) is Ok,
    ensures
        consistent(updated(v, block).unwrap()),
{
    let w = updated(v, block).unwrap();
    if block is InterfaceDescription {
        assert forall|i: int| 0 <= i < w.interfaces.len() implies clock_of(
            #[trigger] w.interfaces[i],
        ) == Ok::<InterfaceClock, ErrorKind>(w.clocks[i]) by {
            if i < v.interfaces.len() {
                assert(w.interfaces[i] == v.interfaces[i]);
            }
        }
    }
}

/// A time that was written is read back as itself cut down to a whole
/// number of ticks since tick zero, in either byte order: for every interface
/// of the table whose ticks are of at least a nanosecond, and every time
/// that its clock can tell.
pub proof fn lemma_encoded_timestamp_is_decoded(
    e: Endianness,
    clocks: Seq<InterfaceClock>,
    interface_id: u32,
    d: Duration,
    tail: Seq<u8>,
)
    requires
        ticking(clocks),
        encoded_timestamp(e, clocks, interface_id, d) is Ok,
    ensures
        ({
            let clock = clocks[interface_id as int];
            let since = d.nanos - clock.offset_secs * 1_000_000_000;
            let bytes = encoded_timestamp(e, clocks, interface_id, d).unwrap();
            &&& bytes.len() == 8
            &&& since >= 0
            &&& decoded_timestamp(e, clocks, interface_id, bytes + tail, 0) == Ok::<
                Duration,
                ErrorKind,
            >(Duration { nanos: (d.nanos - since % (clock.tick_nanos as int)) as u128 })
        }),
{
    broadcast use group_codec;

    let clock = clocks[interface_id as int];
    assert(clock.tick_nanos > 0);
    let ticks = ticks_of(clock, d).unwrap();
    lemma_timestamp_round_trip(clock, d);
    lemma_ticks_read_back(e, ticks, clock);
    let bytes = ticks_bytes(e, ticks);
    assert(ticks_at(e, bytes + tail, 0) == ticks_at(e, bytes, 0));
    assert(d.nanos >= clock.offset_secs * 1_000_000_000) by {
        reveal(ticks_of);
    }
}

} // verus!
