//! Name Resolution Block (NRB).

use vstd::prelude::*;
use vstd::slice::{slice_subrange, slice_to_vec};

use crate::codec::{group_codec, pad_len, padding, read_u16, text_bytes, u16_at, write_bytes};
use crate::common::Endianness;
use crate::errors::{converted, emitted, parsed, ErrorKind, PcapError};
use crate::pcapng::blocks::block_common::{Block, BlockView, PcapNgBlock};
use crate::pcapng::blocks::opt_common::{
    common_of, common_raw_of, duplicate_all, lemma_common_is_stable, lemma_opts_round_trip,
    lemma_parsed_opts_are_stable, opts_bytes, opts_from_slice, opts_of, opts_to_vec,
    text_from_slice, text_value_of, views, CommonOption, CommonOptionView, Duplicate,
    PcapNgOption,
};
use crate::pcapng::state::{ticking, InterfaceClock, PcapNgState};
use crate::codec::text_of;
use crate::pcapng::blocks::opt_common::{lemma_opt_bytes_fields, opt_bytes, write_opt};

verus! {

/// The Name Resolution Block (NRB) is used to support the correlation of numeric addresses
/// (present in the captured packets) and their corresponding canonical names and it is optional.
#[derive(Debug, PartialEq, Eq)]
pub struct NameResolutionBlock {
    /// Records
    pub records: Vec<Record>,
    /// Options
    pub options: Vec<NameResolutionOption>,
}

/// What a `NameResolutionBlock` holds.
pub struct NameResolutionBlockView {
    /// Records
    pub records: Seq<RecordView>,
    /// Options
    pub options: Seq<NameResolutionOptionView>,
}

impl View for NameResolutionBlock {
    type V = NameResolutionBlockView;

    open spec fn view(&self) -> NameResolutionBlockView {
        NameResolutionBlockView { records: views(self.records@), options: views(self.options@) }
    }
}

impl Duplicate for NameResolutionBlock {
    fn duplicate(&self) -> (r: NameResolutionBlock) {
        NameResolutionBlock {
            records: duplicate_all(&self.records),
            options: duplicate_all(&self.options),
        }
    }
}

impl Clone for NameResolutionBlock {
    fn clone(&self) -> (r: NameResolutionBlock)
        ensures
            r@ == self@,
    {
        self.duplicate()
    }
}

/// The records that the bytes `s` start with, up to the record that ends
/// them, and the number of bytes that they and that record take.
#[verifier::opaque]
pub open spec fn records_of(e: Endianness, s: Seq<u8>) -> Result<(Seq<RecordView>, int), ErrorKind>
    decreases s.len(),
{
    match record_of(e, s) {
        Err(k) => Err(k),
        Ok((record, n)) => if record is End {
            Ok((Seq::empty(), n))
        } else if 0 < n <= s.len() {
            match records_of(e, s.subrange(n, s.len() as int)) {
                Err(k) => Err(k),
                Ok((rest, m)) => Ok((seq![record] + rest, n + m)),
            }
        } else {
            Err(ErrorKind::InvalidField)
        },
    }
}

/// The bytes of the records `records` one after the other.
#[verifier::opaque]
pub open spec fn records_bytes(e: Endianness, records: Seq<RecordView>) -> Result<Seq<u8>, ErrorKind>
    decreases records.len(),
{
    if records.len() == 0 {
        Ok(Seq::empty())
    } else {
        match records_bytes(e, records.drop_last()) {
            Err(k) => Err(k),
            Ok(bytes) => match record_bytes(e, records.last()) {
                Err(k) => Err(k),
                Ok(last) => Ok(bytes + last),
            },
        }
    }
}

impl PcapNgBlock for NameResolutionBlock {
    /// The records, the record that ends them, and the options.
    open spec fn body_of(e: Endianness, clocks: Seq<InterfaceClock>, s: Seq<u8>) -> Result<
        (NameResolutionBlockView, int),
        ErrorKind,
    > {
        match records_of(e, s) {
            Err(k) => Err(k),
            Ok((records, n)) => if 0 <= n <= s.len() {
                match opts_of::<NameResolutionOption>(e, clocks, None, s.subrange(n, s.len() as int)) {
                    Err(k) => Err(k),
                    Ok((options, m)) => Ok((NameResolutionBlockView { records, options }, n + m)),
                }
            } else {
                Err(ErrorKind::InvalidField)
            },
        }
    }

    open spec fn body_bytes(block: NameResolutionBlockView, e: Endianness, clocks: Seq<InterfaceClock>) -> Result<
        Seq<u8>,
        ErrorKind,
    > {
        match records_bytes(e, block.records) {
            Err(k) => Err(k),
            Ok(records) => match opts_bytes::<NameResolutionOption>(block.options, e, clocks, None) {
                Err(k) => Err(k),
                Ok(options) => Ok(records + record_bytes(e, RecordView::End).unwrap() + options),
            },
        }
    }

    open spec fn block_of(block: NameResolutionBlockView) -> BlockView {
        BlockView::NameResolution(block)
    }

    #[verifier::rlimit(50)]
    fn from_slice<'a>(e: Endianness, state: &PcapNgState, slice: &'a [u8]) -> (r: Result<
        (&'a [u8], NameResolutionBlock),
        PcapError,
    >) {
        let mut records: Vec<Record> = Vec::new();
        let total = slice.len();
        let mut at: usize = 0;
        let ghost whole = records_of(e, slice@);
        proof {
            reveal(records_of);
            assert(slice@.subrange(0, total as int) =~= slice@);
            assert(views(records@) =~= Seq::<RecordView>::empty());
            if whole is Ok {
                assert(Seq::<RecordView>::empty() + whole.unwrap().0 =~= whole.unwrap().0);
            }
        }
        loop
            invariant
                at <= total == slice@.len(),
                whole == records_of(e, slice@),
                whole == records_behind(
                    views(records@),
                    at as int,
                    records_of(e, slice@.subrange(at as int, total as int)),
                ),
            decreases total - at,
        {
            proof {
                reveal(records_of);
                reveal(record_of);
            }
            let ghost tail = slice@.subrange(at as int, total as int);
            let (rest, record) = match Record::from_slice(e, slice_subrange(slice, at, total)) {
                Ok(v) => v,
                Err(err) => { return Err(err); },
            };
            let taken = total - at - rest.len();
            proof {
                assert(slice@.subrange(at + taken, total as int) =~= tail.subrange(
                    taken as int,
                    tail.len() as int,
                ));
            }
            at = at + taken;
            if let Record::End = record {
                let tail = slice_subrange(slice, at, total);
                proof {
                    assert(views(records@) + Seq::<RecordView>::empty() =~= views(records@));
                }
                return match opts_from_slice::<NameResolutionOption>(e, state.clocks(), None, tail) {
                    Ok((rest, options)) => {
                        proof {
                            let m = opts_of::<NameResolutionOption>(e, state@.clocks, None, tail@).unwrap().1;
                            assert(rest@ =~= slice@.subrange(at + m, slice@.len() as int));
                        }
                        Ok((rest, NameResolutionBlock { records, options }))
                    },
                    Err(err) => Err(err),
                };
            }
            if taken == 0 {
                return Err(PcapError::InvalidField("NameResolutionBlock: empty record"));
            }
            proof {
                let next = records_of(e, slice@.subrange(at as int, total as int));
                assert(views(records@.push(record)) =~= views(records@).push(record@));
                if next is Ok {
                    assert(views(records@) + (seq![record@] + next.unwrap().0) =~= views(
                        records@,
                    ).push(record@) + next.unwrap().0);
                }
            }
            records.push(record);
        }
    }

    fn write_to(&self, e: Endianness, state: &PcapNgState, writer: &mut Vec<u8>) -> (r: Result<
        usize,
        PcapError,
    >) {
        match self.to_body(e, state.clocks()) {
            Ok(body) => {
                write_bytes(writer, body.as_slice());
                Ok(body.len())
            },
            Err(err) => Err(err),
        }
    }

    fn into_block(self) -> (r: Block) {
        Block::NameResolution(self)
    }
}

/// The outcome `tail` of parsing what follows the records `done`, which took
/// `at` bytes, as an outcome for the whole.
pub open spec fn records_behind(
    done: Seq<RecordView>,
    at: int,
    tail: Result<(Seq<RecordView>, int), ErrorKind>,
) -> Result<(Seq<RecordView>, int), ErrorKind> {
    match tail {
        Ok((rest, n)) => Ok((done + rest, at + n)),
        Err(k) => Err(k),
    }
}

impl NameResolutionBlock {
    /// The body of the block on the wire.
    pub fn to_body(&self, e: Endianness, clocks: &Vec<InterfaceClock>) -> (r: Result<Vec<u8>, PcapError>)
        ensures
            match (r, Self::body_bytes(self@, e, clocks@)) {
                (Ok(out), Ok(bytes)) => out@ == bytes,
                (Err(err), Err(k)) => err@ == k,
                _ => false,
            },
    {
        let mut out: Vec<u8> = Vec::new();
        let mut i: usize = 0;
        proof {
            reveal(records_bytes);
            assert(views(self.records@).take(0) =~= Seq::<RecordView>::empty());
        }
        while i < self.records.len()
            invariant
                i <= self.records@.len(),
                records_bytes(e, views(self.records@).take(i as int)) == Ok::<Seq<u8>, ErrorKind>(
                    out@,
                ),
            decreases self.records@.len() - i,
        {
            proof {
                reveal(records_bytes);
                let upto = views(self.records@).take(i + 1);
                assert(upto.drop_last() =~= views(self.records@).take(i as int));
                assert(upto.last() == self.records@[i as int]@);
                lemma_records_bytes_error(e, views(self.records@), i + 1);
            }
            match self.records[i].write_to(e, &mut out) {
                Ok(_) => {},
                Err(err) => { return Err(err); },
            }
            i = i + 1;
        }
        proof {
            assert(views(self.records@).take(self.records@.len() as int) =~= views(self.records@));
        }
        let end = Record::End;
        match end.write_to(e, &mut out) {
            Ok(_) => {},
            Err(err) => { return Err(err); },
        }
        let options = match opts_to_vec::<NameResolutionOption>(&self.options, e, clocks, None) {
            Ok(bytes) => bytes,
            Err(err) => { return Err(err); },
        };
        write_bytes(&mut out, options.as_slice());
        Ok(out)
    }
}

/// Where the first `n` records of a list cannot be written, the list
/// cannot, for the same reason.
pub proof fn lemma_records_bytes_error(e: Endianness, records: Seq<RecordView>, n: int)
    requires
        0 <= n <= records.len(),
    ensures
        records_bytes(e, records.take(n)) matches Err(k) ==> records_bytes(e, records) == Err::<
            Seq<u8>,
            ErrorKind,
        >(k),
    decreases records.len() - n,
{
    reveal(records_bytes);
    if n < records.len() {
        assert(records.take(n + 1).drop_last() =~= records.take(n));
        lemma_records_bytes_error(e, records, n + 1);
    } else {
        assert(records.take(n) =~= records);
    }
}

/// Resolution block record types
#[derive(Debug, PartialEq, Eq)]
pub enum Record {
    /// End of the records
    End,
    /// Ipv4 records
    Ipv4(Ipv4Record),
    /// Ipv6 records
    Ipv6(Ipv6Record),
    /// Unknown records
    Unknown(UnknownRecord),
}

/// What a `Record` holds.
pub enum RecordView {
    /// End of the records
    End,
    /// Ipv4 records
    Ipv4(Ipv4RecordView),
    /// Ipv6 records
    Ipv6(Ipv6RecordView),
    /// Unknown records
    Unknown(UnknownRecordView),
}

impl View for Record {
    type V = RecordView;

    open spec fn view(&self) -> RecordView {
        match self {
            Record::End => RecordView::End,
            Record::Ipv4(v) => RecordView::Ipv4(v@),
            Record::Ipv6(v) => RecordView::Ipv6(v@),
            Record::Unknown(v) => RecordView::Unknown(v@),
        }
    }
}

impl Duplicate for Record {
    fn duplicate(&self) -> (r: Record) {
        match self {
            Record::End => Record::End,
            Record::Ipv4(v) => Record::Ipv4(v.duplicate()),
            Record::Ipv6(v) => Record::Ipv6(v.duplicate()),
            Record::Unknown(v) => Record::Unknown(v.duplicate()),
        }
    }
}

impl Clone for Record {
    fn clone(&self) -> (r: Record)
        ensures
            r@ == self@,
    {
        self.duplicate()
    }
}

/// The record that the bytes `s` start with, and the number of bytes that it
/// takes with its padding: a type, a length and a value. The type 0 ends the
/// records and has no value; the types 1 and 2 are addresses with names;
/// every other type is kept as it stands.
#[verifier::opaque]
pub open spec fn record_of(e: Endianness, s: Seq<u8>) -> Result<(RecordView, int), ErrorKind> {
    if s.len() < 4 {
        Err(ErrorKind::IncompleteBuffer)
    } else {
        let type_ = u16_at(e, s, 0);
        let length = u16_at(e, s, 2);
        let step = 4 + length + pad_len(length as int);
        let value = s.subrange(4, 4 + length);
        if s.len() < step {
            Err(ErrorKind::InvalidField)
        } else if type_ == 0 {
            if length != 0 {
                Err(ErrorKind::InvalidField)
            } else {
                Ok((RecordView::End, step))
            }
        } else if type_ == 1 {
            match ipv4_record_of(value) {
                Ok(record) => Ok((RecordView::Ipv4(record), step)),
                Err(k) => Err(k),
            }
        } else if type_ == 2 {
            match ipv6_record_of(value) {
                Ok(record) => Ok((RecordView::Ipv6(record), step)),
                Err(k) => Err(k),
            }
        } else {
            Ok((RecordView::Unknown(UnknownRecordView { type_, value }), step))
        }
    }
}

/// The type and the value that stand for the record `record` on the wire.
pub open spec fn record_raw_of(record: RecordView) -> (u16, Seq<u8>) {
    match record {
        RecordView::End => (0, Seq::empty()),
        RecordView::Ipv4(v) => (1, v.ip_addr + names_bytes(v.names)),
        RecordView::Ipv6(v) => (2, v.ip_addr + names_bytes(v.names)),
        RecordView::Unknown(v) => (v.type_, v.value),
    }
}

/// The bytes of the record `record`: framed as an option is, with the type
/// in the place of the code.
pub open spec fn record_bytes(e: Endianness, record: RecordView) -> Result<Seq<u8>, ErrorKind> {
    opt_bytes(e, record_raw_of(record).0, record_raw_of(record).1)
}

impl Record {
    /// Parse a [`Record`] from a slice
    pub fn from_slice<'a>(e: Endianness, slice: &'a [u8]) -> (r: Result<(&'a [u8], Record), PcapError>)
        ensures
            parsed(r, slice@, record_of(e, slice@)),
    {
        broadcast use group_codec;

        proof {
            reveal(record_of);
        }

        if slice.len() < 4 {
            return Err(PcapError::IncompleteBuffer);
        }
        let type_ = read_u16(e, slice, 0).unwrap();
        let length = read_u16(e, slice, 2).unwrap();
        let len = length as usize;
        let step = 4 + len + padding(len);
        if slice.len() < step {
            return Err(PcapError::InvalidField("NameResolutionBlock: Record length > slice.len()"));
        }
        let value = slice_subrange(slice, 4, 4 + len);
        let record = if type_ == 0 {
            if length != 0 {
                return Err(
                    PcapError::InvalidField("NameResolutionBlock: nrb_record_end length != 0"),
                );
            }
            Record::End
        } else if type_ == 1 {
            match Ipv4Record::from_slice(value) {
                Ok(record) => Record::Ipv4(record),
                Err(err) => { return Err(err); },
            }
        } else if type_ == 2 {
            match Ipv6Record::from_slice(value) {
                Ok(record) => Record::Ipv6(record),
                Err(err) => { return Err(err); },
            }
        } else {
            Record::Unknown(UnknownRecord::new(type_, value))
        };
        Ok((slice_subrange(slice, step, slice.len()), record))
    }

    /// Write a [`Record`] to a writer
    pub fn write_to(&self, e: Endianness, writer: &mut Vec<u8>) -> (r: Result<usize, PcapError>)
        ensures
            emitted(r, old(writer)@, final(writer)@, record_bytes(e, self@)),
    {
        match self {
            Record::End => {
                let value: Vec<u8> = Vec::new();
                write_opt(e, 0, value.as_slice(), writer)
            },
            Record::Ipv4(a) => {
                let mut value: Vec<u8> = Vec::new();
                a.write_to(&mut value);
                write_opt(e, 1, value.as_slice(), writer)
            },
            Record::Ipv6(a) => {
                let mut value: Vec<u8> = Vec::new();
                a.write_to(&mut value);
                write_opt(e, 2, value.as_slice(), writer)
            },
            Record::Unknown(a) => write_opt(e, a.type_, a.value.as_slice(), writer),
        }
    }
}

/// The length of the name that the bytes `s` start with: the number of bytes
/// before the first zero byte, or all of them where there is none.
pub open spec fn name_len(s: Seq<u8>) -> int
    decreases s.len(),
{
    if s.len() == 0 || s[0] == 0 {
        0
    } else {
        1 + name_len(s.drop_first())
    }
}

/// The names that the bytes `s` hold: each ends with a zero byte or with the
/// bytes, and the first empty name ends the list.
pub open spec fn names_of(s: Seq<u8>) -> Result<Seq<Seq<char>>, ErrorKind>
    decreases s.len(),
{
    let n = name_len(s);
    if n <= 0 || n > s.len() {
        Ok(Seq::empty())
    } else {
        match text_of(s.subrange(0, n)) {
            None => Err(ErrorKind::Utf8Error),
            Some(name) => if n == s.len() {
                Ok(seq![name])
            } else {
                match names_of(s.subrange(n + 1, s.len() as int)) {
                    Err(k) => Err(k),
                    Ok(rest) => Ok(seq![name] + rest),
                }
            },
        }
    }
}

/// The bytes of the names `names`: each in UTF-8 with a zero byte behind it.
pub open spec fn names_bytes(names: Seq<Seq<char>>) -> Seq<u8>
    decreases names.len(),
{
    if names.len() == 0 {
        Seq::empty()
    } else {
        names_bytes(names.drop_last()) + text_bytes(names.last()) + seq![0u8]
    }
}

/// A name ends at the first zero byte: where the first `n` bytes of `s` are
/// not zero and the next one is, or there is none, the name has `n` bytes.
pub proof fn lemma_name_len(s: Seq<u8>, n: int)
    requires
        0 <= n <= s.len(),
        forall|i: int| 0 <= i < n ==> s[i] != 0,
        n < s.len() ==> s[n] == 0,
    ensures
        name_len(s) == n,
    decreases n,
{
    if n > 0 {
        let t = s.drop_first();
        assert forall|i: int| 0 <= i < n - 1 implies t[i] != 0 by {
            assert(t[i] == s[i + 1]);
        }
        lemma_name_len(t, n - 1);
    }
}

/// The outcome `tail` of parsing what follows the names `done` as an outcome
/// for the whole.
pub open spec fn names_behind(done: Seq<Seq<char>>, tail: Result<Seq<Seq<char>>, ErrorKind>) -> Result<
    Seq<Seq<char>>,
    ErrorKind,
> {
    match tail {
        Ok(rest) => Ok(done + rest),
        Err(k) => Err(k),
    }
}

/// Parses the names behind the address of a record.
pub fn names_from_slice(slice: &[u8]) -> (r: Result<Vec<String>, PcapError>)
    ensures
        match (r, names_of(slice@)) {
            (Ok(names), Ok(expected)) => views(names@) == expected,
            (Err(err), Err(k)) => err@ == k,
            _ => false,
        },
{
    let mut names: Vec<String> = Vec::new();
    let total = slice.len();
    let mut at: usize = 0;
    let ghost whole = names_of(slice@);
    proof {
        assert(slice@.subrange(0, total as int) =~= slice@);
        assert(views(names@) =~= Seq::<Seq<char>>::empty());
        if whole is Ok {
            assert(Seq::<Seq<char>>::empty() + whole.unwrap() =~= whole.unwrap());
        }
    }
    loop
        invariant
            at <= total == slice@.len(),
            whole == names_of(slice@),
            whole == names_behind(views(names@), names_of(slice@.subrange(at as int, total as int))),
        decreases total - at,
    {
        let ghost tail = slice@.subrange(at as int, total as int);
        let mut end: usize = at;
        while end < total && slice[end] != 0
            invariant
                at <= end <= total == slice@.len(),
                forall|i: int| at <= i < end ==> slice@[i] != 0,
            decreases total - end,
        {
            end = end + 1;
        }
        proof {
            assert forall|i: int| 0 <= i < end - at implies tail[i] != 0 by {
                assert(tail[i] == slice@[at + i]);
            }
            lemma_name_len(tail, end - at);
        }
        if end == at {
            proof {
                assert(views(names@) + Seq::<Seq<char>>::empty() =~= views(names@));
            }
            return Ok(names);
        }
        let field = slice_subrange(slice, at, end);
        proof {
            assert(field@ =~= tail.subrange(0, end - at));
        }
        let name = match text_from_slice(field) {
            Ok(name) => name,
            Err(err) => { return Err(err); },
        };
        proof {
            assert(views(names@.push(name)) =~= views(names@).push(name@));
            if end == total {
                assert(views(names@) + seq![name@] =~= views(names@).push(name@));
            } else {
                assert(slice@.subrange(end + 1, total as int) =~= tail.subrange(
                    end - at + 1,
                    tail.len() as int,
                ));
                let next = names_of(slice@.subrange(end + 1, total as int));
                if next is Ok {
                    assert(views(names@) + (seq![name@] + next.unwrap()) =~= views(names@).push(
                        name@,
                    ) + next.unwrap());
                }
            }
        }
        names.push(name);
        if end == total {
            return Ok(names);
        }
        at = end + 1;
    }
}

/// Appends each of `names` with a zero byte behind it.
pub fn write_names(names: &Vec<String>, writer: &mut Vec<u8>)
    ensures
        final(writer)@ == old(writer)@ + names_bytes(views(names@)),
{
    let mut i: usize = 0;
    proof {
        assert(views(names@).take(0) =~= Seq::<Seq<char>>::empty());
        assert(writer@ =~= old(writer)@ + names_bytes(views(names@).take(0)));
    }
    while i < names.len()
        invariant
            i <= names@.len(),
            writer@ == old(writer)@ + names_bytes(views(names@).take(i as int)),
        decreases names@.len() - i,
    {
        proof {
            let upto = views(names@).take(i + 1);
            assert(upto.drop_last() =~= views(names@).take(i as int));
            assert(upto.last() == names@[i as int]@);
        }
        let ghost before = writer@;
        write_bytes(writer, names[i].as_str().as_bytes());
        writer.push(0u8);
        assert(writer@ =~= before + text_bytes(names@[i as int]@) + seq![0u8]);
        assert(writer@ =~= old(writer)@ + names_bytes(views(names@).take(i + 1)));
        i = i + 1;
    }
    proof {
        assert(views(names@).take(names@.len() as int) =~= views(names@));
    }
}

/// A copy of every name of `names`.
pub fn duplicate_names(names: &Vec<String>) -> (r: Vec<String>)
    ensures
        views(r@) == views(names@),
{
    let mut out: Vec<String> = Vec::new();
    let mut i: usize = 0;
    while i < names.len()
        invariant
            i <= names@.len(),
            out@.len() == i,
            forall|j: int| 0 <= j < i ==> out@[j]@ == names@[j]@,
        decreases names@.len() - i,
    {
        out.push(names[i].clone());
        i = i + 1;
    }
    assert(views(out@) =~= views(names@));
    out
}

/// Ipv4 records
#[derive(Debug, PartialEq, Eq)]
pub struct Ipv4Record {
    /// Ipv4 Addr
    pub ip_addr: Vec<u8>,
    /// Fqdn
    pub names: Vec<String>,
}

/// What an `Ipv4Record` holds.
pub struct Ipv4RecordView {
    /// Ipv4 Addr
    pub ip_addr: Seq<u8>,
    /// Fqdn
    pub names: Seq<Seq<char>>,
}

impl View for Ipv4Record {
    type V = Ipv4RecordView;

    open spec fn view(&self) -> Ipv4RecordView {
        Ipv4RecordView { ip_addr: self.ip_addr@, names: views(self.names@) }
    }
}

impl Duplicate for Ipv4Record {
    fn duplicate(&self) -> (r: Ipv4Record) {
        Ipv4Record { ip_addr: self.ip_addr.clone(), names: duplicate_names(&self.names) }
    }
}

impl Clone for Ipv4Record {
    fn clone(&self) -> (r: Ipv4Record)
        ensures
            r@ == self@,
    {
        self.duplicate()
    }
}

/// The Ipv4 record whose value is `s`: the 4 bytes of the address, then
/// one name or more. `InvalidField` on fewer than 6 bytes and where no
/// name follows the address.
pub open spec fn ipv4_record_of(s: Seq<u8>) -> Result<Ipv4RecordView, ErrorKind> {
    if s.len() < 6 {
        Err(ErrorKind::InvalidField)
    } else {
        match names_of(s.subrange(4, s.len() as int)) {
            Err(k) => Err(k),
            Ok(names) => if names.len() == 0 {
                Err(ErrorKind::InvalidField)
            } else {
                Ok(Ipv4RecordView { ip_addr: s.subrange(0, 4), names })
            },
        }
    }
}

impl Ipv4Record {
    /// Parse a [`Ipv4Record`] from a slice
    pub fn from_slice(slice: &[u8]) -> (r: Result<Ipv4Record, PcapError>)
        ensures
            converted(r, ipv4_record_of(slice@)),
    {
        if slice.len() < 6 {
            return Err(PcapError::InvalidField("NameResolutionBlock: Ipv4Record len < 6"));
        }
        let ip_addr = slice_to_vec(slice_subrange(slice, 0, 4));
        let names = match names_from_slice(slice_subrange(slice, 4, slice.len())) {
            Ok(names) => names,
            Err(err) => { return Err(err); },
        };
        if names.len() == 0 {
            return Err(PcapError::InvalidField("NameResolutionBlock: Ipv4Record without any name"));
        }
        Ok(Ipv4Record { ip_addr, names })
    }

    /// Write a [`Ipv4Record`] to a writter
    pub fn write_to(&self, writer: &mut Vec<u8>) -> (r: usize)
        ensures
            final(writer)@ == old(writer)@ + self@.ip_addr + names_bytes(self@.names),
            r == self@.ip_addr.len() + names_bytes(self@.names).len(),
    {
        let before = writer.len();
        write_bytes(writer, self.ip_addr.as_slice());
        write_names(&self.names, writer);
        assert(writer@ =~= old(writer)@ + self@.ip_addr + names_bytes(self@.names));
        writer.len() - before
    }
}

/// Ipv6 records
#[derive(Debug, PartialEq, Eq)]
pub struct Ipv6Record {
    /// Ipv6 Addr
    pub ip_addr: Vec<u8>,
    /// Fqdn
    pub names: Vec<String>,
}

/// What an `Ipv6Record` holds.
pub struct Ipv6RecordView {
    /// Ipv6 Addr
    pub ip_addr: Seq<u8>,
    /// Fqdn
    pub names: Seq<Seq<char>>,
}

impl View for Ipv6Record {
    type V = Ipv6RecordView;

    open spec fn view(&self) -> Ipv6RecordView {
        Ipv6RecordView { ip_addr: self.ip_addr@, names: views(self.names@) }
    }
}

impl Duplicate for Ipv6Record {
    fn duplicate(&self) -> (r: Ipv6Record) {
        Ipv6Record { ip_addr: self.ip_addr.clone(), names: duplicate_names(&self.names) }
    }
}

impl Clone for Ipv6Record {
    fn clone(&self) -> (r: Ipv6Record)
        ensures
            r@ == self@,
    {
        self.duplicate()
    }
}

/// The Ipv6 record whose value is `s`: the 16 bytes of the address, then
/// one name or more. `InvalidField` on fewer than 18 bytes and where no
/// name follows the address.
pub open spec fn ipv6_record_of(s: Seq<u8>) -> Result<Ipv6RecordView, ErrorKind> {
    if s.len() < 18 {
        Err(ErrorKind::InvalidField)
    } else {
        match names_of(s.subrange(16, s.len() as int)) {
            Err(k) => Err(k),
            Ok(names) => if names.len() == 0 {
                Err(ErrorKind::InvalidField)
            } else {
                Ok(Ipv6RecordView { ip_addr: s.subrange(0, 16), names })
            },
        }
    }
}

impl Ipv6Record {
    /// Parse a [`Ipv6Record`] from a slice
    pub fn from_slice(slice: &[u8]) -> (r: Result<Ipv6Record, PcapError>)
        ensures
            converted(r, ipv6_record_of(slice@)),
    {
        if slice.len() < 18 {
            return Err(PcapError::InvalidField("NameResolutionBlock: Ipv6Record len < 18"));
        }
        let ip_addr = slice_to_vec(slice_subrange(slice, 0, 16));
        let names = match names_from_slice(slice_subrange(slice, 16, slice.len())) {
            Ok(names) => names,
            Err(err) => { return Err(err); },
        };
        if names.len() == 0 {
            return Err(PcapError::InvalidField("NameResolutionBlock: Ipv6Record without any name"));
        }
        Ok(Ipv6Record { ip_addr, names })
    }

    /// Write a [`Ipv6Record`] to a writter
    pub fn write_to(&self, writer: &mut Vec<u8>) -> (r: usize)
        ensures
            final(writer)@ == old(writer)@ + self@.ip_addr + names_bytes(self@.names),
            r == self@.ip_addr.len() + names_bytes(self@.names).len(),
    {
        let before = writer.len();
        write_bytes(writer, self.ip_addr.as_slice());
        write_names(&self.names, writer);
        assert(writer@ =~= old(writer)@ + self@.ip_addr + names_bytes(self@.names));
        writer.len() - before
    }
}

/// Unknown records
#[derive(Debug, PartialEq, Eq)]
pub struct UnknownRecord {
    /// Records type
    pub type_: u16,
    /// Record body
    pub value: Vec<u8>,
}

/// What an `UnknownRecord` holds.
pub struct UnknownRecordView {
    /// Records type
    pub type_: u16,
    /// Record body
    pub value: Seq<u8>,
}

impl View for UnknownRecord {
    type V = UnknownRecordView;

    open spec fn view(&self) -> UnknownRecordView {
        UnknownRecordView { type_: self.type_, value: self.value@ }
    }
}

impl Duplicate for UnknownRecord {
    fn duplicate(&self) -> (r: UnknownRecord) {
        UnknownRecord { type_: self.type_, value: self.value.clone() }
    }
}

impl Clone for UnknownRecord {
    fn clone(&self) -> (r: UnknownRecord)
        ensures
            r@ == self@,
    {
        self.duplicate()
    }
}

impl UnknownRecord {
    /// Creates a new [`UnknownRecord`]
    pub fn new(type_: u16, value: &[u8]) -> (r: UnknownRecord)
        ensures
            r@ == (UnknownRecordView { type_, value: value@ }),
    {
        UnknownRecord { type_, value: slice_to_vec(value) }
    }
}

/// The Name Resolution Block (NRB) options
#[derive(Debug, PartialEq, Eq)]
pub enum NameResolutionOption {
    /// The ns_dnsname option is a UTF-8 string containing the name of the machine (DNS server) used to perform the name resolution.
    NsDnsName(String),
    /// The ns_dnsIP4addr option specifies the IPv4 address of the DNS server.
    NsDnsIpv4Addr(Vec<u8>),
    /// The ns_dnsIP6addr option specifies the IPv6 address of the DNS server.
    NsDnsIpv6Addr(Vec<u8>),
    /// A common option applicable to any block type.
    Common(CommonOption),
}

/// What a `NameResolutionOption` holds.
pub enum NameResolutionOptionView {
    /// The ns_dnsname option is a UTF-8 string containing the name of the machine (DNS server) used to perform the name resolution.
    NsDnsName(Seq<char>),
    /// The ns_dnsIP4addr option specifies the IPv4 address of the DNS server.
    NsDnsIpv4Addr(Seq<u8>),
    /// The ns_dnsIP6addr option specifies the IPv6 address of the DNS server.
    NsDnsIpv6Addr(Seq<u8>),
    /// A common option applicable to any block type.
    Common(CommonOptionView),
}

impl View for NameResolutionOption {
    type V = NameResolutionOptionView;

    open spec fn view(&self) -> NameResolutionOptionView {
        match self {
            NameResolutionOption::NsDnsName(v) => NameResolutionOptionView::NsDnsName(v@),
            NameResolutionOption::NsDnsIpv4Addr(v) => NameResolutionOptionView::NsDnsIpv4Addr(v@),
            NameResolutionOption::NsDnsIpv6Addr(v) => NameResolutionOptionView::NsDnsIpv6Addr(v@),
            NameResolutionOption::Common(v) => NameResolutionOptionView::Common(v@),
        }
    }
}

impl Duplicate for NameResolutionOption {
    fn duplicate(&self) -> (r: NameResolutionOption) {
        match self {
            NameResolutionOption::NsDnsName(v) => NameResolutionOption::NsDnsName(v.clone()),
            NameResolutionOption::NsDnsIpv4Addr(v) => NameResolutionOption::NsDnsIpv4Addr(v.clone()),
            NameResolutionOption::NsDnsIpv6Addr(v) => NameResolutionOption::NsDnsIpv6Addr(v.clone()),
            NameResolutionOption::Common(v) => NameResolutionOption::Common(v.duplicate()),
        }
    }
}

impl Clone for NameResolutionOption {
    fn clone(&self) -> (r: NameResolutionOption)
        ensures
            r@ == self@,
    {
        self.duplicate()
    }
}

impl PcapNgOption for NameResolutionOption {
    open spec fn value_of(
        e: Endianness,
        clocks: Seq<InterfaceClock>,
        interface_id: Option<u32>,
        code: u16,
        length: u16,
        value: Seq<u8>,
    ) -> Result<NameResolutionOptionView, ErrorKind> {
        if code == 2 {
            match text_value_of(value) {
                Ok(text) => Ok(NameResolutionOptionView::NsDnsName(text)),
                Err(k) => Err(k),
            }
        } else if code == 3 {
            if value.len() != 4 {
                Err(ErrorKind::InvalidField)
            } else {
                Ok(NameResolutionOptionView::NsDnsIpv4Addr(value))
            }
        } else if code == 4 {
            if value.len() != 16 {
                Err(ErrorKind::InvalidField)
            } else {
                Ok(NameResolutionOptionView::NsDnsIpv6Addr(value))
            }
        } else {
            match common_of(e, code, length, value) {
                Ok(c) => Ok(NameResolutionOptionView::Common(c)),
                Err(k) => Err(k),
            }
        }
    }

    open spec fn raw_of(
        opt: NameResolutionOptionView,
        e: Endianness,
        clocks: Seq<InterfaceClock>,
        interface_id: Option<u32>,
    ) -> Result<(u16, Seq<u8>), ErrorKind> {
        match opt {
            NameResolutionOptionView::NsDnsName(v) => Ok((2, text_bytes(v))),
            NameResolutionOptionView::NsDnsIpv4Addr(v) => Ok((3, v)),
            NameResolutionOptionView::NsDnsIpv6Addr(v) => Ok((4, v)),
            NameResolutionOptionView::Common(v) => Ok(common_raw_of(v, e)),
        }
    }

    fn from_slice(
        e: Endianness,
        clocks: &Vec<InterfaceClock>,
        interface_id: Option<u32>,
        code: u16,
        length: u16,
        slice: &[u8],
    ) -> (r: Result<NameResolutionOption, PcapError>) {
        broadcast use group_codec;

        if code == 2 {
            match text_from_slice(slice) {
                Ok(text) => Ok(NameResolutionOption::NsDnsName(text)),
                Err(err) => Err(err),
            }
        } else if code == 3 {
            if slice.len() != 4 {
                Err(PcapError::InvalidField("NameResolutionOption: NsDnsIpv4Addr length != 4"))
            } else {
                Ok(NameResolutionOption::NsDnsIpv4Addr(slice_to_vec(slice)))
            }
        } else if code == 4 {
            if slice.len() != 16 {
                Err(PcapError::InvalidField("NameResolutionOption: NsDnsIpv6Addr length != 16"))
            } else {
                Ok(NameResolutionOption::NsDnsIpv6Addr(slice_to_vec(slice)))
            }
        } else {
            match CommonOption::new(e, code, length, slice) {
                Ok(c) => Ok(NameResolutionOption::Common(c)),
                Err(err) => Err(err),
            }
        }
    }

    fn to_raw(&self, e: Endianness, clocks: &Vec<InterfaceClock>, interface_id: Option<u32>) -> (r:
        Result<(u16, Vec<u8>), PcapError>) {
        match self {
            NameResolutionOption::NsDnsName(v) => Ok((2, slice_to_vec(v.as_str().as_bytes()))),
            NameResolutionOption::NsDnsIpv4Addr(v) => Ok((3, v.clone())),
            NameResolutionOption::NsDnsIpv6Addr(v) => Ok((4, v.clone())),
            NameResolutionOption::Common(v) => Ok(v.to_raw(e)),
        }
    }

    proof fn lemma_parsed_is_stable(
        e: Endianness,
        other: Endianness,
        clocks: Seq<InterfaceClock>,
        interface_id: Option<u32>,
        code: u16,
        value: Seq<u8>,
    ) {
        broadcast use group_codec;

        let opt = Self::value_of(e, clocks, interface_id, code, value.len() as u16, value).unwrap();
        let (c, v) = Self::raw_of(opt, other, clocks, interface_id).unwrap();
        if code == 2 {
            assert(v == value);
        } else if code == 3 {
            assert(v == value);
        } else if code == 4 {
            assert(v == value);
        } else {
            lemma_common_is_stable(e, other, code, value);
        }
    }
}

/// Whether the name `name` can stand in a record: it is not empty and holds
/// no zero byte.
pub open spec fn plain_name(name: Seq<char>) -> bool {
    let bytes = text_bytes(name);
    bytes.len() > 0 && forall|i: int| 0 <= i < bytes.len() ==> bytes[i] != 0
}

/// Whether every name of `names` is plain.
pub open spec fn plain_names(names: Seq<Seq<char>>) -> bool {
    forall|i: int| 0 <= i < names.len() ==> plain_name(#[trigger] names[i])
}

/// Whether the record `record` is in the form in which records are parsed: an
/// address of the right length with plain names, one at least, or a type
/// that the format does not know.
pub open spec fn canonical_record(record: RecordView) -> bool {
    match record {
        RecordView::End => false,
        RecordView::Ipv4(v) => v.ip_addr.len() == 4 && v.names.len() > 0 && plain_names(v.names),
        RecordView::Ipv6(v) => v.ip_addr.len() == 16 && v.names.len() > 0 && plain_names(v.names),
        RecordView::Unknown(v) => v.type_ > 2,
    }
}

/// Whether every record of `records` is canonical.
pub open spec fn canonical_records(records: Seq<RecordView>) -> bool {
    forall|i: int| 0 <= i < records.len() ==> canonical_record(#[trigger] records[i])
}

/// The length of a name is within the bytes, no byte of the name is zero,
/// and where bytes follow the name the next one is zero.
pub proof fn lemma_name_len_bounds(s: Seq<u8>)
    ensures
        0 <= name_len(s) <= s.len(),
        forall|i: int| 0 <= i < name_len(s) ==> s[i] != 0,
        name_len(s) < s.len() ==> s[name_len(s)] == 0,
    decreases s.len(),
{
    if s.len() > 0 && s[0] != 0 {
        let t = s.drop_first();
        lemma_name_len_bounds(t);
        assert forall|i: int| 0 <= i < name_len(s) implies s[i] != 0 by {
            if i > 0 {
                assert(s[i] == t[i - 1]);
            }
        }
        if name_len(s) < s.len() {
            assert(s[name_len(s)] == t[name_len(t)]);
        }
    }
}

/// The names that were parsed are plain.
pub proof fn lemma_parsed_names_are_plain(s: Seq<u8>)
    requires
        names_of(s) is Ok,
    ensures
        plain_names(names_of(s).unwrap()),
    decreases s.len(),
{
    broadcast use group_codec;

    let n = name_len(s);
    lemma_name_len_bounds(s);
    if 0 < n <= s.len() {
        let field = s.subrange(0, n);
        let name = text_of(field).unwrap();
        assert(text_bytes(name) == field);
        assert(plain_name(name));
        if n == s.len() {
            assert(names_of(s).unwrap() =~= seq![name]);
        } else {
            let tail = s.subrange(n + 1, s.len() as int);
            lemma_parsed_names_are_plain(tail);
            let rest = names_of(tail).unwrap();
            let names = names_of(s).unwrap();
            assert(names == seq![name] + rest);
            assert forall|i: int| 0 <= i < names.len() implies plain_name(#[trigger] names[i]) by {
                if i > 0 {
                    assert(names[i] == rest[i - 1]);
                }
            }
        }
    }
}

/// The bytes of a list of names are the bytes of the first name, a zero
/// byte, and the bytes of the names behind it.
pub proof fn lemma_names_bytes_first(name: Seq<char>, rest: Seq<Seq<char>>)
    ensures
        names_bytes(seq![name] + rest) == text_bytes(name) + seq![0u8] + names_bytes(rest),
    decreases rest.len(),
{
    let all = seq![name] + rest;
    if rest.len() == 0 {
        assert(all.drop_last() =~= Seq::<Seq<char>>::empty());
        assert(names_bytes(Seq::<Seq<char>>::empty()) =~= Seq::<u8>::empty());
        assert(all.last() == name);
        assert(names_bytes(all) =~= text_bytes(name) + seq![0u8] + names_bytes(rest));
    } else {
        assert(all.drop_last() =~= seq![name] + rest.drop_last());
        assert(all.last() == rest.last());
        lemma_names_bytes_first(name, rest.drop_last());
        assert(names_bytes(all) =~= text_bytes(name) + seq![0u8] + names_bytes(rest));
    }
}

/// Plain names that were written are parsed back as themselves.
pub proof fn lemma_names_read_back(names: Seq<Seq<char>>)
    requires
        plain_names(names),
    ensures
        names_of(names_bytes(names)) == Ok::<Seq<Seq<char>>, ErrorKind>(names),
        names.len() > 0 ==> names_bytes(names).len() >= 2,
    decreases names.len(),
{
    broadcast use group_codec;

    if names.len() == 0 {
        assert(names =~= Seq::<Seq<char>>::empty());
    } else {
        let name = names[0];
        let rest = names.drop_first();
        assert(names =~= seq![name] + rest);
        lemma_names_bytes_first(name, rest);
        assert(plain_name(name));
        assert forall|i: int| 0 <= i < rest.len() implies plain_name(#[trigger] rest[i]) by {
            assert(rest[i] == names[i + 1]);
        }
        lemma_names_read_back(rest);
        let field = text_bytes(name);
        let bytes = names_bytes(names);
        let k = field.len() as int;
        assert(bytes == field + seq![0u8] + names_bytes(rest));
        assert forall|i: int| 0 <= i < k implies bytes[i] != 0 by {
            assert(bytes[i] == field[i]);
        }
        assert(bytes[k] == 0);
        lemma_name_len(bytes, k);
        assert(bytes.subrange(0, k) =~= field);
        assert(bytes.subrange(k + 1, bytes.len() as int) =~= names_bytes(rest));
    }
}

/// A record that was parsed is the end of the records or canonical.
pub proof fn lemma_parsed_record_is_canonical(e: Endianness, s: Seq<u8>)
    requires
        record_of(e, s) is Ok,
    ensures
        record_of(e, s).unwrap().0 is End || canonical_record(record_of(e, s).unwrap().0),
        4 <= record_of(e, s).unwrap().1 <= s.len(),
{
    reveal(record_of);
    let type_ = u16_at(e, s, 0);
    let length = u16_at(e, s, 2);
    let value = s.subrange(4, 4 + length);
    if type_ == 1 {
        lemma_parsed_names_are_plain(value.subrange(4, value.len() as int));
        assert(value.subrange(0, 4).len() == 4);
    } else if type_ == 2 {
        lemma_parsed_names_are_plain(value.subrange(16, value.len() as int));
        assert(value.subrange(0, 16).len() == 16);
    }
}

/// A canonical record that was written is parsed back as itself, in either
/// byte order and whatever follows it.
pub proof fn lemma_record_read_back(e: Endianness, record: RecordView, tail: Seq<u8>)
    requires
        canonical_record(record),
        record_bytes(e, record) is Ok,
    ensures
        ({
            let bytes = record_bytes(e, record).unwrap();
            bytes.len() % 4 == 0 && bytes.len() >= 4 && record_of(e, bytes + tail) == Ok::<
                (RecordView, int),
                ErrorKind,
            >((record, bytes.len() as int))
        }),
{
    reveal(record_of);
    let (type_, value) = record_raw_of(record);
    lemma_opt_bytes_fields(e, type_, value, tail);
    match record {
        RecordView::Ipv4(v) => {
            lemma_names_read_back(v.names);
            assert(value.subrange(0, 4) =~= v.ip_addr);
            assert(value.subrange(4, value.len() as int) =~= names_bytes(v.names));
        },
        RecordView::Ipv6(v) => {
            lemma_names_read_back(v.names);
            assert(value.subrange(0, 16) =~= v.ip_addr);
            assert(value.subrange(16, value.len() as int) =~= names_bytes(v.names));
        },
        _ => {},
    }
}

/// The record that ends the records is parsed as such, in either byte
/// order and whatever follows it.
pub proof fn lemma_end_record(e: Endianness, tail: Seq<u8>)
    ensures
        record_bytes(e, RecordView::End) is Ok,
        record_bytes(e, RecordView::End).unwrap().len() == 4,
        record_of(e, record_bytes(e, RecordView::End).unwrap() + tail) == Ok::<
            (RecordView, int),
            ErrorKind,
        >((RecordView::End, 4)),
{
    reveal(record_of);
    lemma_opt_bytes_fields(e, 0, Seq::empty(), tail);
}

/// The records that were parsed are canonical.
pub proof fn lemma_parsed_records_are_canonical(e: Endianness, s: Seq<u8>)
    requires
        records_of(e, s) is Ok,
    ensures
        canonical_records(records_of(e, s).unwrap().0),
        0 <= records_of(e, s).unwrap().1 <= s.len(),
    decreases s.len(),
{
    reveal(records_of);
    lemma_parsed_record_is_canonical(e, s);
    let (record, n) = record_of(e, s).unwrap();
    if !(record is End) {
        let tail = s.subrange(n, s.len() as int);
        lemma_parsed_records_are_canonical(e, tail);
        let rest = records_of(e, tail).unwrap().0;
        let records = records_of(e, s).unwrap().0;
        assert(records == seq![record] + rest);
        assert forall|i: int| 0 <= i < records.len() implies canonical_record(
            #[trigger] records[i],
        ) by {
            if i > 0 {
                assert(records[i] == rest[i - 1]);
            }
        }
    }
}

/// The bytes of a list of records are the bytes of the first record and the
/// bytes of the records behind it; the first record that cannot be written
/// decides the error.
pub proof fn lemma_records_bytes_first(e: Endianness, record: RecordView, rest: Seq<RecordView>)
    ensures
        records_bytes(e, seq![record] + rest) == match record_bytes(e, record) {
            Err(k) => Err(k),
            Ok(first) => match records_bytes(e, rest) {
                Err(k) => Err(k),
                Ok(bytes) => Ok(first + bytes),
            },
        },
    decreases rest.len(),
{
    reveal(records_bytes);
    let all = seq![record] + rest;
    if rest.len() == 0 {
        assert(all.drop_last() =~= Seq::<RecordView>::empty());
        assert(records_bytes(e, Seq::<RecordView>::empty()) == Ok::<Seq<u8>, ErrorKind>(
            Seq::empty(),
        ));
        assert(all.last() == record);
        if record_bytes(e, record) is Ok {
            let first = record_bytes(e, record).unwrap();
            assert(Seq::<u8>::empty() + first =~= first + Seq::<u8>::empty());
        }
    } else {
        assert(all.drop_last() =~= seq![record] + rest.drop_last());
        assert(all.last() == rest.last());
        lemma_records_bytes_first(e, record, rest.drop_last());
        if record_bytes(e, record) is Ok && records_bytes(e, rest.drop_last()) is Ok && record_bytes(
            e,
            rest.last(),
        ) is Ok {
            let first = record_bytes(e, record).unwrap();
            let middle = records_bytes(e, rest.drop_last()).unwrap();
            let last = record_bytes(e, rest.last()).unwrap();
            assert((first + middle) + last =~= first + (middle + last));
        }
    }
}

/// The records that follow a record are parsed behind it: the bytes of a
/// canonical record with `tail` behind them hold the record and then what
/// `tail` holds.
pub proof fn lemma_records_step(e: Endianness, record: RecordView, tail: Seq<u8>)
    requires
        canonical_record(record),
        record_bytes(e, record) is Ok,
    ensures
        ({
            let first = record_bytes(e, record).unwrap();
            first.len() % 4 == 0 && records_of(e, first + tail) == records_behind(
                seq![record],
                first.len() as int,
                records_of(e, tail),
            )
        }),
{
    reveal(records_of);
    lemma_record_read_back(e, record, tail);
    let first = record_bytes(e, record).unwrap();
    let s = first + tail;
    assert(s.subrange(first.len() as int, s.len() as int) =~= tail);
}

/// The record that ends the records ends them, whatever follows it.
pub proof fn lemma_records_end(e: Endianness, tail: Seq<u8>)
    ensures
        records_of(e, record_bytes(e, RecordView::End).unwrap() + tail) == Ok::<
            (Seq<RecordView>, int),
            ErrorKind,
        >((Seq::empty(), 4)),
{
    reveal(records_of);
    lemma_end_record(e, tail);
}

/// Canonical records that were written, with the record that ends them, are
/// parsed back as themselves, in either byte order and whatever follows
/// them.
pub proof fn lemma_records_read_back(e: Endianness, records: Seq<RecordView>, tail: Seq<u8>)
    requires
        canonical_records(records),
        records_bytes(e, records) is Ok,
    ensures
        ({
            let bytes = records_bytes(e, records).unwrap();
            let end = record_bytes(e, RecordView::End).unwrap();
            bytes.len() % 4 == 0 && records_of(e, bytes + end + tail) == Ok::<
                (Seq<RecordView>, int),
                ErrorKind,
            >((records, bytes.len() as int + 4))
        }),
    decreases records.len(),
{
    let end = record_bytes(e, RecordView::End).unwrap();
    if records.len() == 0 {
        assert(records_bytes(e, records) == Ok::<Seq<u8>, ErrorKind>(Seq::empty())) by {
            reveal(records_bytes);
        }
        lemma_records_end(e, tail);
        assert(Seq::<u8>::empty() + end + tail =~= end + tail);
        assert(records =~= Seq::<RecordView>::empty());
    } else {
        let record = records[0];
        let rest = records.drop_first();
        assert(records =~= seq![record] + rest);
        lemma_records_bytes_first(e, record, rest);
        assert(canonical_record(record));
        assert forall|i: int| 0 <= i < rest.len() implies canonical_record(#[trigger] rest[i]) by {
            assert(rest[i] == records[i + 1]);
        }
        lemma_records_read_back(e, rest, tail);
        let first = record_bytes(e, record).unwrap();
        let later = records_bytes(e, rest).unwrap();
        lemma_records_step(e, record, later + end + tail);
        assert((first + later) + end + tail =~= first + (later + end + tail));
        assert(seq![record] + rest =~= records);
    }
}

/// A block that was parsed, in whatever byte order, and that can be written
/// is parsed again as itself from what is written, in every byte order; what
/// is written ends on a 32-bit boundary.
pub proof fn lemma_name_resolution_round_trip(
    e: Endianness,
    other: Endianness,
    clocks: Seq<InterfaceClock>,
    s: Seq<u8>,
)
    requires
        ticking(clocks),
        NameResolutionBlock::body_of(e, clocks, s) is Ok,
        NameResolutionBlock::body_bytes(
            NameResolutionBlock::body_of(e, clocks, s).unwrap().0,
            other,
            clocks,
        ) is Ok,
    ensures
        ({
            let block = NameResolutionBlock::body_of(e, clocks, s).unwrap().0;
            let bytes = NameResolutionBlock::body_bytes(block, other, clocks).unwrap();
            bytes.len() % 4 == 0 && NameResolutionBlock::body_of(other, clocks, bytes) is Ok
                && NameResolutionBlock::body_of(other, clocks, bytes).unwrap().0 == block
        }),
{
    let block = NameResolutionBlock::body_of(e, clocks, s).unwrap().0;
    lemma_parsed_records_are_canonical(e, s);
    let n = records_of(e, s).unwrap().1;
    lemma_parsed_opts_are_stable::<NameResolutionOption>(
        e,
        other,
        clocks,
        None,
        s.subrange(n, s.len() as int),
    );
    lemma_opts_round_trip::<NameResolutionOption>(block.options, other, clocks, None);
    let options = opts_bytes::<NameResolutionOption>(block.options, other, clocks, None).unwrap();
    let records = records_bytes(other, block.records).unwrap();
    let end = record_bytes(other, RecordView::End).unwrap();
    lemma_end_record(other, options);
    lemma_records_read_back(other, block.records, options);
    let bytes = records + end + options;
    assert(bytes.subrange(records.len() as int + 4, bytes.len() as int) =~= options);
}

} // verus!
