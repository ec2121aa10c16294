//! Generic block option types.
//!
//! An option is a code, a length and a value, padded with zero bytes to the
//! next 32-bit boundary. A list of options ends with the code 0 or with the
//! bytes of the block.

use vstd::prelude::*;
use vstd::slice::{slice_subrange, slice_to_vec};

use crate::codec::{
    bytes_u16, bytes_u32, group_codec, pad_len, padding, read_u16, read_u32, string_from_utf8,
    text_bytes, text_of, u16_at, u32_at, write_bytes, write_u16, write_u32, write_zeros, zeros,
};
use crate::common::Endianness;
use crate::errors::{converted, emitted, parsed, ErrorKind, PcapError};
use crate::pcapng::state::{ticking, InterfaceClock};

verus! {

/// The views of the items of `s`.
pub open spec fn views<T: View>(s: Seq<T>) -> Seq<T::V> {
    Seq::new(s.len(), |i: int| s[i]@)
}

/// Unknown options
#[derive(Debug, PartialEq, Eq)]
pub struct UnknownOption {
    /// Option code
    pub code: u16,
    /// Option length
    pub length: u16,
    /// Option value
    pub value: Vec<u8>,
}

/// What an `UnknownOption` holds.
pub struct UnknownOptionView {
    /// Option code
    pub code: u16,
    /// Option length
    pub length: u16,
    /// Option value
    pub value: Seq<u8>,
}

impl View for UnknownOption {
    type V = UnknownOptionView;

    open spec fn view(&self) -> UnknownOptionView {
        UnknownOptionView { code: self.code, length: self.length, value: self.value@ }
    }
}

impl UnknownOption {
    /// Creates a new [`UnknownOption`]
    pub fn new(code: u16, length: u16, value: &[u8]) -> (r: UnknownOption)
        ensures
            r@ == (UnknownOptionView { code, length, value: value@ }),
    {
        UnknownOption { code, length, value: slice_to_vec(value) }
    }
}

/// Custom binary option
#[derive(Debug, PartialEq, Eq)]
pub struct CustomBinaryOption {
    /// Option code
    pub code: u16,
    /// Option PEN identifier
    pub pen: u32,
    /// Option value
    pub value: Vec<u8>,
}

/// What a `CustomBinaryOption` holds.
pub struct CustomBinaryOptionView {
    /// Option code
    pub code: u16,
    /// Option PEN identifier
    pub pen: u32,
    /// Option value
    pub value: Seq<u8>,
}

impl View for CustomBinaryOption {
    type V = CustomBinaryOptionView;

    open spec fn view(&self) -> CustomBinaryOptionView {
        CustomBinaryOptionView { code: self.code, pen: self.pen, value: self.value@ }
    }
}

/// The custom binary option with the code `code` whose value is `s`: the
/// Private Enterprise Number in byte order `e`, then the data.
pub open spec fn custom_binary_of(e: Endianness, code: u16, s: Seq<u8>) -> Result<
    CustomBinaryOptionView,
    ErrorKind,
> {
    if s.len() < 4 {
        Err(ErrorKind::IncompleteBuffer)
    } else {
        Ok(
            CustomBinaryOptionView {
                code,
                pen: u32_at(e, s, 0),
                value: s.subrange(4, s.len() as int),
            },
        )
    }
}

impl CustomBinaryOption {
    /// Parse an [`CustomBinaryOption`] from a slice
    pub fn from_slice(e: Endianness, code: u16, src: &[u8]) -> (r: Result<CustomBinaryOption, PcapError>)
        ensures
            converted(r, custom_binary_of(e, code, src@)),
    {
        let pen = match read_u32(e, src, 0) {
            Some(pen) => pen,
            None => { return Err(PcapError::IncompleteBuffer); },
        };
        Ok(CustomBinaryOption { code, pen, value: slice_to_vec(slice_subrange(src, 4, src.len())) })
    }

    /// The value of the option on the wire.
    pub fn to_value(&self, e: Endianness) -> (r: Vec<u8>)
        ensures
            r@ == bytes_u32(e, self.pen) + self.value@,
    {
        let mut out: Vec<u8> = Vec::new();
        write_u32(e, &mut out, self.pen);
        write_bytes(&mut out, self.value.as_slice());
        out
    }
}

/// Custom string (UTF-8) option
#[derive(Debug, PartialEq, Eq)]
pub struct CustomUtf8Option {
    /// Option code
    pub code: u16,
    /// Option PEN identifier
    pub pen: u32,
    /// Option value
    pub value: String,
}

/// What a `CustomUtf8Option` holds.
pub struct CustomUtf8OptionView {
    /// Option code
    pub code: u16,
    /// Option PEN identifier
    pub pen: u32,
    /// Option value
    pub value: Seq<char>,
}

impl View for CustomUtf8Option {
    type V = CustomUtf8OptionView;

    open spec fn view(&self) -> CustomUtf8OptionView {
        CustomUtf8OptionView { code: self.code, pen: self.pen, value: self.value@ }
    }
}

/// The custom text option with the code `code` whose value is `s`: the
/// Private Enterprise Number in byte order `e`, then the text in UTF-8.
pub open spec fn custom_utf8_of(e: Endianness, code: u16, s: Seq<u8>) -> Result<
    CustomUtf8OptionView,
    ErrorKind,
> {
    if s.len() < 4 {
        Err(ErrorKind::IncompleteBuffer)
    } else {
        match text_of(s.subrange(4, s.len() as int)) {
            Some(value) => Ok(CustomUtf8OptionView { code, pen: u32_at(e, s, 0), value }),
            None => Err(ErrorKind::Utf8Error),
        }
    }
}

impl CustomUtf8Option {
    /// Parse a [`CustomUtf8Option`] from a slice
    pub fn from_slice(e: Endianness, code: u16, src: &[u8]) -> (r: Result<CustomUtf8Option, PcapError>)
        ensures
            converted(r, custom_utf8_of(e, code, src@)),
    {
        let pen = match read_u32(e, src, 0) {
            Some(pen) => pen,
            None => { return Err(PcapError::IncompleteBuffer); },
        };
        match string_from_utf8(slice_subrange(src, 4, src.len())) {
            Ok(value) => Ok(CustomUtf8Option { code, pen, value }),
            Err(err) => Err(PcapError::Utf8Error(err)),
        }
    }

    /// The value of the option on the wire.
    pub fn to_value(&self, e: Endianness) -> (r: Vec<u8>)
        ensures
            r@ == bytes_u32(e, self.pen) + text_bytes(self.value@),
    {
        let mut out: Vec<u8> = Vec::new();
        write_u32(e, &mut out, self.pen);
        write_bytes(&mut out, self.value.as_str().as_bytes());
        out
    }
}

/// A deep copy, known to hold what the value it was made from holds.
pub trait Duplicate: Sized + View {
    /// A copy of `self`.
    fn duplicate(&self) -> (r: Self)
        ensures
            r@ == self@,
    ;
}

/// A copy of every item of `items`.
pub fn duplicate_all<T: Duplicate>(items: &Vec<T>) -> (r: Vec<T>)
    ensures
        views(r@) == views(items@),
{
    let mut out: Vec<T> = Vec::new();
    let mut i: usize = 0;
    while i < items.len()
        invariant
            i <= items@.len(),
            out@.len() == i,
            forall|j: int| 0 <= j < i ==> out@[j]@ == items@[j]@,
        decreases items@.len() - i,
    {
        out.push(items[i].duplicate());
        i = i + 1;
    }
    assert(views(out@) =~= views(items@));
    out
}

impl Duplicate for UnknownOption {
    fn duplicate(&self) -> (r: UnknownOption) {
        UnknownOption { code: self.code, length: self.length, value: self.value.clone() }
    }
}

impl Clone for UnknownOption {
    fn clone(&self) -> (r: UnknownOption)
        ensures
            r@ == self@,
    {
        self.duplicate()
    }
}

impl Duplicate for CustomBinaryOption {
    fn duplicate(&self) -> (r: CustomBinaryOption) {
        CustomBinaryOption { code: self.code, pen: self.pen, value: self.value.clone() }
    }
}

impl Clone for CustomBinaryOption {
    fn clone(&self) -> (r: CustomBinaryOption)
        ensures
            r@ == self@,
    {
        self.duplicate()
    }
}

impl Duplicate for CustomUtf8Option {
    fn duplicate(&self) -> (r: CustomUtf8Option) {
        CustomUtf8Option { code: self.code, pen: self.pen, value: self.value.clone() }
    }
}

impl Clone for CustomUtf8Option {
    fn clone(&self) -> (r: CustomUtf8Option)
        ensures
            r@ == self@,
    {
        self.duplicate()
    }
}

/// The options that every kind of block can hold.
#[derive(Debug, PartialEq, Eq)]
pub enum CommonOption {
    /// Comment associated with the current block
    Comment(String),
    /// Custom option containing binary octets in the Custom Data portion
    CustomBinary(CustomBinaryOption),
    /// Custom option containing a UTF-8 string in the Custom Data portion
    CustomUtf8(CustomUtf8Option),
    /// Unknown option
    Unknown(UnknownOption),
}

/// What a `CommonOption` holds.
pub enum CommonOptionView {
    /// Comment associated with the current block
    Comment(Seq<char>),
    /// Custom option containing binary octets in the Custom Data portion
    CustomBinary(CustomBinaryOptionView),
    /// Custom option containing a UTF-8 string in the Custom Data portion
    CustomUtf8(CustomUtf8OptionView),
    /// Unknown option
    Unknown(UnknownOptionView),
}

impl View for CommonOption {
    type V = CommonOptionView;

    open spec fn view(&self) -> CommonOptionView {
        match self {
            CommonOption::Comment(v) => CommonOptionView::Comment(v@),
            CommonOption::CustomBinary(v) => CommonOptionView::CustomBinary(v@),
            CommonOption::CustomUtf8(v) => CommonOptionView::CustomUtf8(v@),
            CommonOption::Unknown(v) => CommonOptionView::Unknown(v@),
        }
    }
}

impl Duplicate for CommonOption {
    fn duplicate(&self) -> (r: CommonOption) {
        match self {
            CommonOption::Comment(v) => CommonOption::Comment(v.clone()),
            CommonOption::CustomBinary(v) => CommonOption::CustomBinary(v.duplicate()),
            CommonOption::CustomUtf8(v) => CommonOption::CustomUtf8(v.duplicate()),
            CommonOption::Unknown(v) => CommonOption::Unknown(v.duplicate()),
        }
    }
}

impl Clone for CommonOption {
    fn clone(&self) -> (r: CommonOption)
        ensures
            r@ == self@,
    {
        self.duplicate()
    }
}

/// The common option with the code `code` and the declared length `length`
/// whose value is `value`: a comment for the code 1, a custom option for the
/// four custom codes, and else an unknown option that keeps all three.
pub open spec fn common_of(e: Endianness, code: u16, length: u16, value: Seq<u8>) -> Result<
    CommonOptionView,
    ErrorKind,
> {
    if code == 1 {
        match text_value_of(value) {
            Ok(text) => Ok(CommonOptionView::Comment(text)),
            Err(k) => Err(k),
        }
    } else if code == 2988 || code == 19372 {
        match custom_utf8_of(e, code, value) {
            Ok(c) => Ok(CommonOptionView::CustomUtf8(c)),
            Err(k) => Err(k),
        }
    } else if code == 2989 || code == 19373 {
        match custom_binary_of(e, code, value) {
            Ok(c) => Ok(CommonOptionView::CustomBinary(c)),
            Err(k) => Err(k),
        }
    } else {
        Ok(CommonOptionView::Unknown(UnknownOptionView { code, length, value }))
    }
}

/// The code and the value that stand for the common option `opt` on the
/// wire.
pub open spec fn common_raw_of(opt: CommonOptionView, e: Endianness) -> (u16, Seq<u8>) {
    match opt {
        CommonOptionView::Comment(v) => (1, text_bytes(v)),
        CommonOptionView::CustomBinary(v) => (v.code, bytes_u32(e, v.pen) + v.value),
        CommonOptionView::CustomUtf8(v) => (v.code, bytes_u32(e, v.pen) + text_bytes(v.value)),
        CommonOptionView::Unknown(v) => (v.code, v.value),
    }
}

/// A common option that was parsed, in whatever byte order, is written with
/// its code and parsed as itself again, in every byte order.
pub proof fn lemma_common_is_stable(e: Endianness, other: Endianness, code: u16, value: Seq<u8>)
    requires
        value.len() <= 0xFFFF,
        common_of(e, code, value.len() as u16, value) is Ok,
    ensures
        ({
            let opt = common_of(e, code, value.len() as u16, value).unwrap();
            let (c, v) = common_raw_of(opt, other);
            c == code && v.len() == value.len() && common_of(other, c, v.len() as u16, v) == Ok::<
                CommonOptionView,
                ErrorKind,
            >(opt)
        }),
{
    broadcast use group_codec;

    let opt = common_of(e, code, value.len() as u16, value).unwrap();
    let (c, v) = common_raw_of(opt, other);
    if code == 2988 || code == 19372 || code == 2989 || code == 19373 {
        assert(v.subrange(4, v.len() as int) =~= value.subrange(4, value.len() as int));
    }
}

impl CommonOption {
    /// Parses the common option with the code `code` from its value.
    pub fn new(e: Endianness, code: u16, length: u16, slice: &[u8]) -> (r: Result<
        CommonOption,
        PcapError,
    >)
        ensures
            converted(r, common_of(e, code, length, slice@)),
    {
        if code == 1 {
            match text_from_slice(slice) {
                Ok(text) => Ok(CommonOption::Comment(text)),
                Err(err) => Err(err),
            }
        } else if code == 2988 || code == 19372 {
            match CustomUtf8Option::from_slice(e, code, slice) {
                Ok(c) => Ok(CommonOption::CustomUtf8(c)),
                Err(err) => Err(err),
            }
        } else if code == 2989 || code == 19373 {
            match CustomBinaryOption::from_slice(e, code, slice) {
                Ok(c) => Ok(CommonOption::CustomBinary(c)),
                Err(err) => Err(err),
            }
        } else {
            Ok(CommonOption::Unknown(UnknownOption::new(code, length, slice)))
        }
    }

    /// The code of the option.
    pub fn code(&self) -> (r: u16)
        ensures
            r == common_raw_of(self@, Endianness::Big).0,
    {
        match self {
            CommonOption::Comment(_) => 1,
            CommonOption::CustomBinary(v) => v.code,
            CommonOption::CustomUtf8(v) => v.code,
            CommonOption::Unknown(v) => v.code,
        }
    }

    /// The code and the value that stand for the option on the wire.
    pub fn to_raw(&self, e: Endianness) -> (r: (u16, Vec<u8>))
        ensures
            r.0 == common_raw_of(self@, e).0,
            r.1@ == common_raw_of(self@, e).1,
    {
        match self {
            CommonOption::Comment(v) => (1, slice_to_vec(v.as_str().as_bytes())),
            CommonOption::CustomBinary(v) => (v.code, v.to_value(e)),
            CommonOption::CustomUtf8(v) => (v.code, v.to_value(e)),
            CommonOption::Unknown(v) => (v.code, v.value.clone()),
        }
    }
}

/// The text that the value `s` of an option holds.
pub open spec fn text_value_of(s: Seq<u8>) -> Result<Seq<char>, ErrorKind> {
    match text_of(s) {
        Some(text) => Ok(text),
        None => Err(ErrorKind::Utf8Error),
    }
}

/// Decodes the value of an option that holds a text.
pub fn text_from_slice(slice: &[u8]) -> (r: Result<String, PcapError>)
    ensures
        converted(r, text_value_of(slice@)),
{
    match string_from_utf8(slice) {
        Ok(text) => Ok(text),
        Err(err) => Err(PcapError::Utf8Error(err)),
    }
}

/// The bytes of one option: the code, the length of the value, the value and
/// the padding; `InvalidField` where the value is longer than the 16 bits of
/// the length can tell.
pub open spec fn opt_bytes(e: Endianness, code: u16, value: Seq<u8>) -> Result<Seq<u8>, ErrorKind> {
    if value.len() > 0xFFFF {
        Err(ErrorKind::InvalidField)
    } else {
        Ok(
            bytes_u16(e, code) + bytes_u16(e, value.len() as u16) + value + zeros(
                pad_len(value.len() as int),
            ),
        )
    }
}

/// Appends the option with the code `code` and the value `value`; nothing is
/// written where the value is too long.
pub fn write_opt(e: Endianness, code: u16, value: &[u8], writer: &mut Vec<u8>) -> (r: Result<
    usize,
    PcapError,
>)
    ensures
        emitted(r, old(writer)@, final(writer)@, opt_bytes(e, code, value@)),
{
    broadcast use group_codec;

    let len = value.len();
    if len > 0xFFFF {
        return Err(PcapError::InvalidField("Option: value longer than 65535 bytes"));
    }
    let pad = padding(len);
    write_u16(e, writer, code);
    write_u16(e, writer, len as u16);
    write_bytes(writer, value);
    write_zeros(writer, pad);
    assert(writer@ =~= old(writer)@ + opt_bytes(e, code, value@).unwrap());
    Ok(len + pad + 4)
}

/// Common fonctions of the PcapNg options
pub trait PcapNgOption: Sized + View {
    /// The option with the code `code` and the declared length `length`
    /// whose value is `value`, in a block of the interface `interface_id`.
    spec fn value_of(
        e: Endianness,
        clocks: Seq<InterfaceClock>,
        interface_id: Option<u32>,
        code: u16,
        length: u16,
        value: Seq<u8>,
    ) -> Result<Self::V, ErrorKind>;

    /// The code and the value that stand for the option `opt` on the wire.
    spec fn raw_of(
        opt: Self::V,
        e: Endianness,
        clocks: Seq<InterfaceClock>,
        interface_id: Option<u32>,
    ) -> Result<(u16, Seq<u8>), ErrorKind>;

    /// Parse an option from a slice
    fn from_slice(
        e: Endianness,
        clocks: &Vec<InterfaceClock>,
        interface_id: Option<u32>,
        code: u16,
        length: u16,
        slice: &[u8],
    ) -> (r: Result<Self, PcapError>)
        ensures
            converted(r, Self::value_of(e, clocks@, interface_id, code, length, slice@)),
    ;

    /// The code and the value that stand for the option on the wire.
    fn to_raw(&self, e: Endianness, clocks: &Vec<InterfaceClock>, interface_id: Option<u32>) -> (r:
        Result<(u16, Vec<u8>), PcapError>)
        ensures
            match (r, Self::raw_of(self@, e, clocks@, interface_id)) {
                (Ok((code, value)), Ok((c, v))) => code == c && value@ == v,
                (Err(err), Err(k)) => err@ == k,
                _ => false,
            },
    ;

    /// An option that was parsed, in whatever byte order, can be written in
    /// every byte order, with a code that does not end the list, and what is
    /// written is parsed as the same option again.
    proof fn lemma_parsed_is_stable(
        e: Endianness,
        other: Endianness,
        clocks: Seq<InterfaceClock>,
        interface_id: Option<u32>,
        code: u16,
        value: Seq<u8>,
    )
        requires
            code != 0,
            value.len() <= 0xFFFF,
            ticking(clocks),
            Self::value_of(e, clocks, interface_id, code, value.len() as u16, value) is Ok,
        ensures
            ({
                let opt = Self::value_of(
                    e,
                    clocks,
                    interface_id,
                    code,
                    value.len() as u16,
                    value,
                ).unwrap();
                match Self::raw_of(opt, other, clocks, interface_id) {
                    Err(_) => false,
                    Ok((c, v)) => c != 0 && v.len() <= 0xFFFF && Self::value_of(
                        other,
                        clocks,
                        interface_id,
                        c,
                        v.len() as u16,
                        v,
                    ) == Ok::<Self::V, ErrorKind>(opt),
                }
            }),
    ;
}

/// Whether the option `opt` is stable in the byte order `e`: it can be
/// written, with a code that does not end the list, and what is written is
/// parsed as `opt` again.
pub open spec fn stable<O: PcapNgOption>(
    opt: O::V,
    e: Endianness,
    clocks: Seq<InterfaceClock>,
    interface_id: Option<u32>,
) -> bool {
    match O::raw_of(opt, e, clocks, interface_id) {
        Err(_) => false,
        Ok((code, value)) => code != 0 && value.len() <= 0xFFFF && O::value_of(
            e,
            clocks,
            interface_id,
            code,
            value.len() as u16,
            value,
        ) == Ok::<O::V, ErrorKind>(opt),
    }
}

/// The options that the bytes `s` hold, and the number of bytes that they
/// take. The list ends with the code 0, whatever length comes with it, or
/// with the bytes; `InvalidField` where fewer than four bytes are left for
/// the head of an option, or fewer than its length and padding ask for.
#[verifier::opaque]
pub open spec fn opts_of<O: PcapNgOption>(
    e: Endianness,
    clocks: Seq<InterfaceClock>,
    interface_id: Option<u32>,
    s: Seq<u8>,
) -> Result<(Seq<O::V>, int), ErrorKind>
    decreases s.len(),
{
    if s.len() == 0 {
        Ok((Seq::empty(), 0))
    } else if s.len() < 4 {
        Err(ErrorKind::InvalidField)
    } else {
        let code = u16_at(e, s, 0);
        let length = u16_at(e, s, 2);
        let step = 4 + length + pad_len(length as int);
        if code == 0 {
            Ok((Seq::empty(), 4))
        } else if s.len() < step {
            Err(ErrorKind::InvalidField)
        } else {
            match O::value_of(e, clocks, interface_id, code, length, s.subrange(4, 4 + length)) {
                Err(k) => Err(k),
                Ok(opt) => match opts_of::<O>(
                    e,
                    clocks,
                    interface_id,
                    s.subrange(step, s.len() as int),
                ) {
                    Err(k) => Err(k),
                    Ok((rest, n)) => Ok((seq![opt] + rest, step + n)),
                },
            }
        }
    }
}

/// The outcome `tail` of parsing what follows the options `done`, which took
/// `at` bytes, as an outcome for the whole.
pub open spec fn behind<V>(done: Seq<V>, at: int, tail: Result<(Seq<V>, int), ErrorKind>) -> Result<
    (Seq<V>, int),
    ErrorKind,
> {
    match tail {
        Ok((rest, n)) => Ok((done + rest, at + n)),
        Err(k) => Err(k),
    }
}

/// Whether the outcome `r` of parsing a list on `input` is the outcome
/// `expected`.
pub open spec fn parsed_list<T: View>(
    r: Result<(&[u8], Vec<T>), PcapError>,
    input: Seq<u8>,
    expected: Result<(Seq<T::V>, int), ErrorKind>,
) -> bool {
    match (r, expected) {
        (Ok((rest, v)), Ok((w, n))) => views(v@) == w && 0 <= n <= input.len() && rest@
            == input.subrange(n, input.len() as int),
        (Err(e), Err(k)) => e@ == k,
        _ => false,
    }
}

/// Parse all options in a block
pub fn opts_from_slice<'a, O: PcapNgOption>(
    e: Endianness,
    clocks: &Vec<InterfaceClock>,
    interface_id: Option<u32>,
    slice: &'a [u8],
) -> (r: Result<(&'a [u8], Vec<O>), PcapError>)
    ensures
        parsed_list(r, slice@, opts_of::<O>(e, clocks@, interface_id, slice@)),
{
    let mut options: Vec<O> = Vec::new();
    let total = slice.len();
    let mut at: usize = 0;
    let ghost whole = opts_of::<O>(e, clocks@, interface_id, slice@);
    proof {
        reveal(opts_of);
        assert(slice@.subrange(0, total as int) =~= slice@);
        assert(views(options@) =~= Seq::<O::V>::empty());
        if whole is Ok {
            assert(Seq::<O::V>::empty() + whole.unwrap().0 =~= whole.unwrap().0);
        }
    }
    while at < total
        invariant
            at <= total == slice@.len(),
            whole == opts_of::<O>(e, clocks@, interface_id, slice@),
            whole == behind(
                views(options@),
                at as int,
                opts_of::<O>(e, clocks@, interface_id, slice@.subrange(at as int, total as int)),
            ),
        decreases total - at,
    {
        broadcast use group_codec;

        proof {
            reveal(opts_of);
        }
        let ghost tail = slice@.subrange(at as int, total as int);
        if total - at < 4 {
            return Err(PcapError::InvalidField("Option: slice.len() < 4"));
        }
        let code = read_u16(e, slice, at).unwrap();
        let length = read_u16(e, slice, at + 2).unwrap();
        let len = length as usize;
        let step = 4 + len + padding(len);
        if code == 0 {
            proof {
                assert(views(options@) + Seq::<O::V>::empty() =~= views(options@));
            }
            return Ok((slice_subrange(slice, at + 4, total), options));
        }
        if total - at < step {
            return Err(PcapError::InvalidField("Option: length + pad.len() > slice.len()"));
        }
        let value = slice_subrange(slice, at + 4, at + 4 + len);
        proof {
            assert(value@ =~= tail.subrange(4, 4 + length));
            assert(slice@.subrange(at + step, total as int) =~= tail.subrange(
                step as int,
                tail.len() as int,
            ));
        }
        let opt = match O::from_slice(e, clocks, interface_id, code, length, value) {
            Ok(opt) => opt,
            Err(err) => { return Err(err); },
        };
        proof {
            let next = opts_of::<O>(e, clocks@, interface_id, slice@.subrange(at + step, total as int));
            assert(views(options@.push(opt)) =~= views(options@).push(opt@));
            if next is Ok {
                assert(views(options@) + (seq![opt@] + next.unwrap().0) =~= views(options@).push(opt@)
                    + next.unwrap().0);
            }
        }
        options.push(opt);
        at = at + step;
    }
    proof {
        reveal(opts_of);
        assert(views(options@) + Seq::<O::V>::empty() =~= views(options@));
    }
    Ok((slice_subrange(slice, total, total), options))
}

/// The bytes of the options `opts` one after the other, without an end.
#[verifier::opaque]
pub open spec fn opts_body<O: PcapNgOption>(
    opts: Seq<O::V>,
    e: Endianness,
    clocks: Seq<InterfaceClock>,
    interface_id: Option<u32>,
) -> Result<Seq<u8>, ErrorKind>
    decreases opts.len(),
{
    if opts.len() == 0 {
        Ok(Seq::empty())
    } else {
        match O::raw_of(opts[0], e, clocks, interface_id) {
            Err(k) => Err(k),
            Ok((code, value)) => match opt_bytes(e, code, value) {
                Err(k) => Err(k),
                Ok(first) => match opts_body::<O>(opts.drop_first(), e, clocks, interface_id) {
                    Err(k) => Err(k),
                    Ok(rest) => Ok(first + rest),
                },
            },
        }
    }
}

/// The end of a list of options: the code 0 with the length 0.
pub open spec fn end_of_opts(e: Endianness) -> Seq<u8> {
    bytes_u16(e, 0) + bytes_u16(e, 0)
}

/// The bytes of the list of options `opts`: nothing for no option, else the
/// options one after the other and the end of the list.
pub open spec fn opts_bytes<O: PcapNgOption>(
    opts: Seq<O::V>,
    e: Endianness,
    clocks: Seq<InterfaceClock>,
    interface_id: Option<u32>,
) -> Result<Seq<u8>, ErrorKind> {
    if opts.len() == 0 {
        Ok(Seq::empty())
    } else {
        match opts_body::<O>(opts, e, clocks, interface_id) {
            Err(k) => Err(k),
            Ok(body) => Ok(body + end_of_opts(e)),
        }
    }
}

/// The bytes of a list with one option more are the bytes of the list and
/// then those of the option; the first option that cannot be written decides
/// the error.
pub proof fn lemma_opts_body_push<O: PcapNgOption>(
    opts: Seq<O::V>,
    opt: O::V,
    e: Endianness,
    clocks: Seq<InterfaceClock>,
    interface_id: Option<u32>,
)
    ensures
        opts_body::<O>(opts.push(opt), e, clocks, interface_id) == match opts_body::<O>(
            opts,
            e,
            clocks,
            interface_id,
        ) {
            Err(k) => Err(k),
            Ok(body) => match O::raw_of(opt, e, clocks, interface_id) {
                Err(k) => Err(k),
                Ok((code, value)) => match opt_bytes(e, code, value) {
                    Err(k) => Err(k),
                    Ok(last) => Ok(body + last),
                },
            },
        },
    decreases opts.len(),
{
    reveal(opts_body);
    if opts.len() == 0 {
        assert(opts.push(opt).drop_first() =~= opts);
        let r = O::raw_of(opt, e, clocks, interface_id);
        if r is Ok && opt_bytes(e, r.unwrap().0, r.unwrap().1) is Ok {
            let last = opt_bytes(e, r.unwrap().0, r.unwrap().1).unwrap();
            assert(last + Seq::<u8>::empty() =~= Seq::<u8>::empty() + last);
        }
    } else {
        assert(opts.push(opt).drop_first() =~= opts.drop_first().push(opt));
        assert(opts.push(opt)[0] == opts[0]);
        lemma_opts_body_push::<O>(opts.drop_first(), opt, e, clocks, interface_id);
        let first = O::raw_of(opts[0], e, clocks, interface_id);
        if first is Ok && opt_bytes(e, first.unwrap().0, first.unwrap().1) is Ok {
            let f = opt_bytes(e, first.unwrap().0, first.unwrap().1).unwrap();
            let rest = opts_body::<O>(opts.drop_first(), e, clocks, interface_id);
            let r = O::raw_of(opt, e, clocks, interface_id);
            if rest is Ok && r is Ok && opt_bytes(e, r.unwrap().0, r.unwrap().1) is Ok {
                let last = opt_bytes(e, r.unwrap().0, r.unwrap().1).unwrap();
                assert(f + (rest.unwrap() + last) =~= (f + rest.unwrap()) + last);
            }
        }
    }
}

/// Whether every option of `opts` is stable in the byte order `e`.
#[verifier::opaque]
pub open spec fn all_stable<O: PcapNgOption>(
    opts: Seq<O::V>,
    e: Endianness,
    clocks: Seq<InterfaceClock>,
    interface_id: Option<u32>,
) -> bool {
    forall|i: int| 0 <= i < opts.len() ==> stable::<O>(#[trigger] opts[i], e, clocks, interface_id)
}

/// The options of a list that was parsed, in whatever byte order, are stable
/// in every byte order.
pub proof fn lemma_parsed_opts_are_stable<O: PcapNgOption>(
    e: Endianness,
    other: Endianness,
    clocks: Seq<InterfaceClock>,
    interface_id: Option<u32>,
    s: Seq<u8>,
)
    requires
        ticking(clocks),
        opts_of::<O>(e, clocks, interface_id, s) is Ok,
    ensures
        all_stable::<O>(opts_of::<O>(e, clocks, interface_id, s).unwrap().0, other, clocks, interface_id),
    decreases s.len(),
{
    reveal(all_stable);
    reveal(opts_of);
    if s.len() >= 4 && u16_at(e, s, 0) != 0 {
        let code = u16_at(e, s, 0);
        let length = u16_at(e, s, 2);
        let step = 4 + length + pad_len(length as int);
        let value = s.subrange(4, 4 + length);
        let tail = s.subrange(step, s.len() as int);
        O::lemma_parsed_is_stable(e, other, clocks, interface_id, code, value);
        lemma_parsed_opts_are_stable::<O>(e, other, clocks, interface_id, tail);
        let first = O::value_of(e, clocks, interface_id, code, length, value).unwrap();
        let rest = opts_of::<O>(e, clocks, interface_id, tail).unwrap().0;
        let opts = opts_of::<O>(e, clocks, interface_id, s).unwrap().0;
        assert(opts == seq![first] + rest);
        assert forall|i: int| 0 <= i < opts.len() implies stable::<O>(
            #[trigger] opts[i],
            other,
            clocks,
            interface_id,
        ) by {
            if i > 0 {
                assert(opts[i] == rest[i - 1]);
            }
        }
    }
}

/// Where the bytes of an option stand: its code, the length of its value,
/// its value, and what follows its padding.
pub proof fn lemma_opt_bytes_fields(e: Endianness, code: u16, value: Seq<u8>, tail: Seq<u8>)
    requires
        value.len() <= 0xFFFF,
    ensures
        ({
            let first = opt_bytes(e, code, value).unwrap();
            let s = first + tail;
            &&& first.len() == 4 + value.len() + pad_len(value.len() as int)
            &&& first.len() % 4 == 0
            &&& u16_at(e, s, 0) == code
            &&& u16_at(e, s, 2) == value.len()
            &&& s.subrange(4, 4 + value.len() as int) == value
            &&& s.subrange(first.len() as int, s.len() as int) == tail
        }),
{
    broadcast use group_codec;

    let first = opt_bytes(e, code, value).unwrap();
    let s = first + tail;
    let head = bytes_u16(e, code) + bytes_u16(e, value.len() as u16);
    let body = value + zeros(pad_len(value.len() as int)) + tail;
    assert(head.len() == 4);
    assert(s =~= head + body);
    assert(u16_at(e, head, 0) == code);
    assert(u16_at(e, head, 2) == value.len());
    assert(s.subrange(4, 4 + value.len() as int) =~= value);
    assert(s.subrange(first.len() as int, s.len() as int) =~= tail);
}

/// The options that follow an option are parsed behind it: the bytes of an
/// option with `tail` behind them hold the option and then what `tail`
/// holds, down to the end of the bytes.
pub proof fn lemma_opts_step<O: PcapNgOption>(
    e: Endianness,
    clocks: Seq<InterfaceClock>,
    interface_id: Option<u32>,
    code: u16,
    value: Seq<u8>,
    tail: Seq<u8>,
)
    requires
        code != 0,
        value.len() <= 0xFFFF,
    ensures
        ({
            let first = opt_bytes(e, code, value).unwrap();
            opts_of::<O>(e, clocks, interface_id, first + tail) == match O::value_of(
                e,
                clocks,
                interface_id,
                code,
                value.len() as u16,
                value,
            ) {
                Err(k) => Err(k),
                Ok(opt) => behind(
                    seq![opt],
                    first.len() as int,
                    opts_of::<O>(e, clocks, interface_id, tail),
                ),
            }
        }),
{
    reveal(opts_of);
    lemma_opt_bytes_fields(e, code, value, tail);
}

/// A list of stable options is parsed back from its bytes, whether the code 0
/// follows them or the bytes end with the last option: where `rest` holds no
/// option, be it empty or the end of a list, the bytes of `opts` with `rest`
/// behind them hold the options `opts`.
pub proof fn lemma_opts_read_back<O: PcapNgOption>(
    opts: Seq<O::V>,
    e: Endianness,
    clocks: Seq<InterfaceClock>,
    interface_id: Option<u32>,
    rest: Seq<u8>,
)
    requires
        all_stable::<O>(opts, e, clocks, interface_id),
        opts_of::<O>(e, clocks, interface_id, rest) is Ok,
        opts_of::<O>(e, clocks, interface_id, rest).unwrap().0.len() == 0,
    ensures
        opts_body::<O>(opts, e, clocks, interface_id) is Ok,
        ({
            let bytes = opts_body::<O>(opts, e, clocks, interface_id).unwrap();
            let m = opts_of::<O>(e, clocks, interface_id, rest).unwrap().1;
            bytes.len() % 4 == 0 && opts_of::<O>(e, clocks, interface_id, bytes + rest) == Ok::<
                (Seq<O::V>, int),
                ErrorKind,
            >((opts, bytes.len() + m))
        }),
    decreases opts.len(),
{
    reveal(all_stable);
    reveal(opts_body);
    let none = opts_of::<O>(e, clocks, interface_id, rest).unwrap();
    if opts.len() == 0 {
        assert(Seq::<u8>::empty() + rest =~= rest);
        assert(none.0 =~= opts);
    } else {
        let later = opts.drop_first();
        assert(stable::<O>(opts[0], e, clocks, interface_id));
        assert forall|i: int| 0 <= i < later.len() implies stable::<O>(
            #[trigger] later[i],
            e,
            clocks,
            interface_id,
        ) by {
            assert(later[i] == opts[i + 1]);
        }
        lemma_opts_read_back::<O>(later, e, clocks, interface_id, rest);
        let (code, value) = O::raw_of(opts[0], e, clocks, interface_id).unwrap();
        let first = opt_bytes(e, code, value).unwrap();
        let behind_first = opts_body::<O>(later, e, clocks, interface_id).unwrap();
        lemma_opts_step::<O>(e, clocks, interface_id, code, value, behind_first + rest);
        lemma_opt_bytes_fields(e, code, value, behind_first + rest);
        assert((first + behind_first) + rest =~= first + (behind_first + rest));
        assert(seq![opts[0]] + later =~= opts);
    }
}

/// The end of a list of options holds no option.
pub proof fn lemma_end_of_opts<O: PcapNgOption>(
    e: Endianness,
    clocks: Seq<InterfaceClock>,
    interface_id: Option<u32>,
)
    ensures
        end_of_opts(e).len() == 4,
        opts_of::<O>(e, clocks, interface_id, end_of_opts(e)) == Ok::<(Seq<O::V>, int), ErrorKind>(
            (Seq::empty(), 4),
        ),
        opts_of::<O>(e, clocks, interface_id, Seq::empty()) == Ok::<(Seq<O::V>, int), ErrorKind>(
            (Seq::empty(), 0),
        ),
{
    broadcast use group_codec;

    reveal(opts_of);

}

/// A list of stable options that was written is parsed back as itself, and
/// its bytes end on a 32-bit boundary.
pub proof fn lemma_opts_round_trip<O: PcapNgOption>(
    opts: Seq<O::V>,
    e: Endianness,
    clocks: Seq<InterfaceClock>,
    interface_id: Option<u32>,
)
    requires
        all_stable::<O>(opts, e, clocks, interface_id),
    ensures
        opts_bytes::<O>(opts, e, clocks, interface_id) is Ok,
        ({
            let bytes = opts_bytes::<O>(opts, e, clocks, interface_id).unwrap();
            bytes.len() % 4 == 0 && opts_of::<O>(e, clocks, interface_id, bytes) == Ok::<
                (Seq<O::V>, int),
                ErrorKind,
            >((opts, bytes.len() as int))
        }),
{
    lemma_end_of_opts::<O>(e, clocks, interface_id);
    if opts.len() == 0 {
        assert(opts =~= Seq::<O::V>::empty());
    } else {
        lemma_opts_read_back::<O>(opts, e, clocks, interface_id, end_of_opts(e));
    }
}

/// The bytes of the list of options `opts`, in a vector of their own.
pub fn opts_to_vec<O: PcapNgOption>(
    opts: &Vec<O>,
    e: Endianness,
    clocks: &Vec<InterfaceClock>,
    interface_id: Option<u32>,
) -> (r: Result<Vec<u8>, PcapError>)
    ensures
        match (r, opts_bytes::<O>(views(opts@), e, clocks@, interface_id)) {
            (Ok(out), Ok(bytes)) => out@ == bytes,
            (Err(err), Err(k)) => err@ == k,
            _ => false,
        },
{
    let mut out: Vec<u8> = Vec::new();
    let mut i: usize = 0;
    proof {
        reveal(opts_body);
        assert(views(opts@).take(0) =~= Seq::<O::V>::empty());
    }
    while i < opts.len()
        invariant
            i <= opts@.len(),
            opts_body::<O>(views(opts@).take(i as int), e, clocks@, interface_id) == Ok::<
                Seq<u8>,
                ErrorKind,
            >(out@),
        decreases opts@.len() - i,
    {
        proof {
            lemma_opts_body_push::<O>(
                views(opts@).take(i as int),
                opts@[i as int]@,
                e,
                clocks@,
                interface_id,
            );
            assert(views(opts@).take(i + 1) =~= views(opts@).take(i as int).push(opts@[i as int]@));
            lemma_opts_body_error::<O>(views(opts@), i + 1, e, clocks@, interface_id);
        }
        let (code, value) = match opts[i].to_raw(e, clocks, interface_id) {
            Ok(raw) => raw,
            Err(err) => { return Err(err); },
        };
        match write_opt(e, code, value.as_slice(), &mut out) {
            Ok(_) => {},
            Err(err) => { return Err(err); },
        }
        i = i + 1;
    }
    proof {
        assert(views(opts@).take(opts@.len() as int) =~= views(opts@));
    }
    if opts.len() > 0 {
        write_u16(e, &mut out, 0);
        write_u16(e, &mut out, 0);
        assert(out@ =~= opts_body::<O>(views(opts@), e, clocks@, interface_id).unwrap()
            + end_of_opts(e));
    }
    Ok(out)
}

/// Where the first `n` options of a list cannot be written, the list cannot,
/// for the same reason.
pub proof fn lemma_opts_body_error<O: PcapNgOption>(
    opts: Seq<O::V>,
    n: int,
    e: Endianness,
    clocks: Seq<InterfaceClock>,
    interface_id: Option<u32>,
)
    requires
        0 <= n <= opts.len(),
    ensures
        opts_body::<O>(opts.take(n), e, clocks, interface_id) matches Err(k) ==> opts_body::<O>(
            opts,
            e,
            clocks,
            interface_id,
        ) == Err::<Seq<u8>, ErrorKind>(k),
    decreases opts.len() - n,
{
    if n < opts.len() {
        lemma_opts_body_push::<O>(opts.take(n), opts[n], e, clocks, interface_id);
        assert(opts.take(n + 1) =~= opts.take(n).push(opts[n]));
        lemma_opts_body_error::<O>(opts, n + 1, e, clocks, interface_id);
    } else {
        assert(opts.take(n) =~= opts);
    }
}

/// Write all options in a block
pub fn write_opts_to<O: PcapNgOption>(
    opts: &Vec<O>,
    e: Endianness,
    clocks: &Vec<InterfaceClock>,
    interface_id: Option<u32>,
    writer: &mut Vec<u8>,
) -> (r: Result<usize, PcapError>)
    ensures
        emitted(
            r,
            old(writer)@,
            final(writer)@,
            opts_bytes::<O>(views(opts@), e, clocks@, interface_id),
        ),
{
    match opts_to_vec::<O>(opts, e, clocks, interface_id) {
        Ok(bytes) => {
            write_bytes(writer, bytes.as_slice());
            Ok(bytes.len())
        },
        Err(err) => Err(err),
    }
}

/// A list of options may end with the bytes that hold it: stable options
/// that were written one after the other, with no end of the list behind
/// them, are parsed as those options, all of them.
pub proof fn lemma_opts_may_end_with_the_bytes<O: PcapNgOption>(
    opts: Seq<O::V>,
    e: Endianness,
    clocks: Seq<InterfaceClock>,
    interface_id: Option<u32>,
)
    requires
        all_stable::<O>(opts, e, clocks, interface_id),
    ensures
        opts_body::<O>(opts, e, clocks, interface_id) is Ok,
        opts_of::<O>(e, clocks, interface_id, opts_body::<O>(opts, e, clocks, interface_id).unwrap())
            == Ok::<(Seq<O::V>, int), ErrorKind>(
            (opts, opts_body::<O>(opts, e, clocks, interface_id).unwrap().len() as int),
        ),
{
    lemma_end_of_opts::<O>(e, clocks, interface_id);
    lemma_opts_read_back::<O>(opts, e, clocks, interface_id, Seq::empty());
    let bytes = opts_body::<O>(opts, e, clocks, interface_id).unwrap();
    assert(bytes + Seq::<u8>::empty() =~= bytes);
}

} // verus!
