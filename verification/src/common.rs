//! Types shared by the Pcap and the PcapNg formats.

use vstd::prelude::*;
use vstd::std_specs::convert::FromSpecImpl;

verus! {

/// Byte order of the integer fields of a file or of a section.
#[derive(Copy, Clone, Debug, PartialEq, Eq, Structural)]
pub enum Endianness {
    /// Most significant byte first.
    Big,
    /// Least significant byte first.
    Little,
}

impl Endianness {
    /// True if the byte order is big endian.
    pub fn is_big(self) -> (r: bool)
        ensures
            r == (self == Endianness::Big),
    {
        match self {
            Endianness::Big => true,
            Endianness::Little => false,
        }
    }

    /// True if the byte order is little endian.
    pub fn is_little(self) -> (r: bool)
        ensures
            r == (self == Endianness::Little),
    {
        match self {
            Endianness::Big => false,
            Endianness::Little => true,
        }
    }
}

/// Unit of the sub-second part of the timestamps of a Pcap file.
#[derive(Copy, Clone, Debug, PartialEq, Eq, Structural)]
pub enum TsResolution {
    /// The sub-second part counts microseconds.
    MicroSecond,
    /// The sub-second part counts nanoseconds.
    NanoSecond,
}

/// Number of nanoseconds in a second.
pub const NANOS_PER_SEC: u32 = 1_000_000_000;

/// A span of time, counted in nanoseconds.
///
/// Timestamps are spans since 1970-01-01 00:00:00 UTC. The count is wide
/// enough for every timestamp that either format can hold.
#[derive(Copy, Clone, Debug, PartialEq, Eq, Structural)]
pub struct Duration {
    /// The whole span in nanoseconds.
    pub nanos: u128,
}

impl Duration {
    /// The empty span.
    pub fn zero() -> (r: Duration)
        ensures
            r.nanos == 0,
    {
        Duration { nanos: 0 }
    }

    /// The span of `secs` seconds and `nanos` nanoseconds.
    pub fn new(secs: u64, nanos: u32) -> (r: Duration)
        ensures
            r.nanos == secs * 1_000_000_000 + nanos,
    {
        let whole: u128 = secs as u128 * 1_000_000_000u128;
        Duration { nanos: whole + nanos as u128 }
    }

    /// The span of `secs` seconds.
    pub fn from_secs(secs: u64) -> (r: Duration)
        ensures
            r.nanos == secs * 1_000_000_000,
    {
        Duration { nanos: secs as u128 * 1_000_000_000u128 }
    }

    /// The span of `nanos` nanoseconds.
    pub fn from_nanos(nanos: u128) -> (r: Duration)
        ensures
            r.nanos == nanos,
    {
        Duration { nanos }
    }

    /// The whole span in nanoseconds.
    pub fn as_nanos(&self) -> (r: u128)
        ensures
            r == self.nanos,
    {
        self.nanos
    }

    /// The number of whole seconds in the span.
    pub fn as_secs(&self) -> (r: u128)
        ensures
            r == self.nanos / 1_000_000_000,
    {
        self.nanos / 1_000_000_000u128
    }

    /// The part of the span below one second, in nanoseconds.
    pub fn subsec_nanos(&self) -> (r: u32)
        ensures
            r == self.nanos % 1_000_000_000,
    {
        (self.nanos % 1_000_000_000u128) as u32
    }
}

/// Link-layer type of the packets of a capture.
///
/// A code that the catalogue does not hold is kept as it is, in `Unknown`.
#[allow(non_camel_case_types)]
#[derive(Copy, Clone, Debug, PartialEq, Eq, Structural)]
pub enum DataLink {
    /// Link type 0.
    NULL,
    /// Link type 1.
    ETHERNET,
    /// Link type 3.
    AX25,
    /// Link type 6.
    IEEE802_5,
    /// Link type 7.
    ARCNET_BSD,
    /// Link type 8.
    SLIP,
    /// Link type 9.
    PPP,
    /// Link type 10.
    FDDI,
    /// Link type 50.
    PPP_HDLC,
    /// Link type 51.
    PPP_ETHER,
    /// Link type 100.
    ATM_RFC1483,
    /// Link type 101.
    RAW,
    /// Link type 104.
    C_HDLC,
    /// Link type 105.
    IEEE802_11,
    /// Link type 107.
    FRELAY,
    /// Link type 108.
    LOOP,
    /// Link type 113.
    LINUX_SLL,
    /// Link type 114.
    LTALK,
    /// Link type 117.
    PFLOG,
    /// Link type 119.
    IEEE802_11_PRISM,
    /// Link type 122.
    IP_OVER_FC,
    /// Link type 123.
    SUNATM,
    /// Link type 127.
    IEEE802_11_RADIOTAP,
    /// Link type 129.
    ARCNET_LINUX,
    /// Link type 138.
    APPLE_IP_OVER_IEEE1394,
    /// Link type 139.
    MTP2_WITH_PHDR,
    /// Link type 140.
    MTP2,
    /// Link type 141.
    MTP3,
    /// Link type 142.
    SCCP,
    /// Link type 143.
    DOCSIS,
    /// Link type 144.
    LINUX_IRDA,
    /// Link type 147.
    USER0,
    /// Link type 148.
    USER1,
    /// Link type 149.
    USER2,
    /// Link type 150.
    USER3,
    /// Link type 151.
    USER4,
    /// Link type 152.
    USER5,
    /// Link type 153.
    USER6,
    /// Link type 154.
    USER7,
    /// Link type 155.
    USER8,
    /// Link type 156.
    USER9,
    /// Link type 157.
    USER10,
    /// Link type 158.
    USER11,
    /// Link type 159.
    USER12,
    /// Link type 160.
    USER13,
    /// Link type 161.
    USER14,
    /// Link type 162.
    USER15,
    /// Link type 163.
    IEEE802_11_AVS,
    /// Link type 165.
    BACNET_MS_TP,
    /// Link type 166.
    PPP_PPPD,
    /// Link type 169.
    GPRS_LLC,
    /// Link type 170.
    GPF_T,
    /// Link type 171.
    GPF_F,
    /// Link type 177.
    LINUX_LAPD,
    /// Link type 187.
    BLUETOOTH_HCI_H4,
    /// Link type 189.
    USB_LINUX,
    /// Link type 192.
    PPI,
    /// Link type 195.
    IEEE802_15_4,
    /// Link type 196.
    SITA,
    /// Link type 197.
    ERF,
    /// Link type 201.
    BLUETOOTH_HCI_H4_WITH_PHDR,
    /// Link type 202.
    AX25_KISS,
    /// Link type 203.
    LAPD,
    /// Link type 204.
    PPP_WITH_DIR,
    /// Link type 205.
    C_HDLC_WITH_DIR,
    /// Link type 206.
    FRELAY_WITH_DIR,
    /// Link type 209.
    IPMB_LINUX,
    /// Link type 215.
    IEEE802_15_4_NONASK_PHY,
    /// Link type 220.
    USB_LINUX_MMAPPED,
    /// Link type 224.
    FC_2,
    /// Link type 225.
    FC_2_WITH_FRAME_DELIMS,
    /// Link type 226.
    IPNET,
    /// Link type 227.
    CAN_SOCKETCAN,
    /// Link type 228.
    IPV4,
    /// Link type 229.
    IPV6,
    /// Link type 230.
    IEEE802_15_4_NOFCS,
    /// Link type 231.
    DBUS,
    /// Link type 235.
    DVB_CI,
    /// Link type 236.
    MUX27010,
    /// Link type 237.
    STANAG_5066_D_PDU,
    /// Link type 239.
    NFLOG,
    /// Link type 240.
    NETANALYZER,
    /// Link type 241.
    NETANALYZER_TRANSPARENT,
    /// Link type 242.
    IPOIB,
    /// Link type 243.
    MPEG_2_TS,
    /// Link type 244.
    NG40,
    /// Link type 245.
    NFC_LLCP,
    /// Link type 247.
    INFINIBAND,
    /// Link type 248.
    SCTP,
    /// Link type 249.
    USBPCAP,
    /// Link type 250.
    RTAC_SERIAL,
    /// Link type 251.
    BLUETOOTH_LE_LL,
    /// Link type 253.
    NETLINK,
    /// Link type 254.
    BLUETOOTH_LINUX_MONITOR,
    /// Link type 255.
    BLUETOOTH_BREDR_BB,
    /// Link type 256.
    BLUETOOTH_LE_LL_WITH_PHDR,
    /// Link type 257.
    PROFIBUS_DL,
    /// Link type 258.
    PKTAP,
    /// Link type 259.
    EPON,
    /// Link type 260.
    IPMI_HPM_2,
    /// Link type 261.
    ZWAVE_R1_R2,
    /// Link type 262.
    ZWAVE_R3,
    /// Link type 263.
    WATTSTOPPER_DLM,
    /// Link type 264.
    ISO_14443,
    /// Link type 265.
    RDS,
    /// Link type 266.
    USB_DARWIN,
    /// Link type 268.
    SDLC,
    /// A link type outside the catalogue, with its code.
    Unknown(u32),
}

/// The link type that the code `n` stands for.
#[verifier::opaque]
pub open spec fn datalink_of(n: u32) -> DataLink {
    match n {
        0 => DataLink::NULL,
        1 => DataLink::ETHERNET,
        3 => DataLink::AX25,
        6 => DataLink::IEEE802_5,
        7 => DataLink::ARCNET_BSD,
        8 => DataLink::SLIP,
        9 => DataLink::PPP,
        10 => DataLink::FDDI,
        50 => DataLink::PPP_HDLC,
        51 => DataLink::PPP_ETHER,
        100 => DataLink::ATM_RFC1483,
        101 => DataLink::RAW,
        104 => DataLink::C_HDLC,
        105 => DataLink::IEEE802_11,
        107 => DataLink::FRELAY,
        108 => DataLink::LOOP,
        113 => DataLink::LINUX_SLL,
        114 => DataLink::LTALK,
        117 => DataLink::PFLOG,
        119 => DataLink::IEEE802_11_PRISM,
        122 => DataLink::IP_OVER_FC,
        123 => DataLink::SUNATM,
        127 => DataLink::IEEE802_11_RADIOTAP,
        129 => DataLink::ARCNET_LINUX,
        138 => DataLink::APPLE_IP_OVER_IEEE1394,
        139 => DataLink::MTP2_WITH_PHDR,
        140 => DataLink::MTP2,
        141 => DataLink::MTP3,
        142 => DataLink::SCCP,
        143 => DataLink::DOCSIS,
        144 => DataLink::LINUX_IRDA,
        147 => DataLink::USER0,
        148 => DataLink::USER1,
        149 => DataLink::USER2,
        150 => DataLink::USER3,
        151 => DataLink::USER4,
        152 => DataLink::USER5,
        153 => DataLink::USER6,
        154 => DataLink::USER7,
        155 => DataLink::USER8,
        156 => DataLink::USER9,
        157 => DataLink::USER10,
        158 => DataLink::USER11,
        159 => DataLink::USER12,
        160 => DataLink::USER13,
        161 => DataLink::USER14,
        162 => DataLink::USER15,
        163 => DataLink::IEEE802_11_AVS,
        165 => DataLink::BACNET_MS_TP,
        166 => DataLink::PPP_PPPD,
        169 => DataLink::GPRS_LLC,
        170 => DataLink::GPF_T,
        171 => DataLink::GPF_F,
        177 => DataLink::LINUX_LAPD,
        187 => DataLink::BLUETOOTH_HCI_H4,
        189 => DataLink::USB_LINUX,
        192 => DataLink::PPI,
        195 => DataLink::IEEE802_15_4,
        196 => DataLink::SITA,
        197 => DataLink::ERF,
        201 => DataLink::BLUETOOTH_HCI_H4_WITH_PHDR,
        202 => DataLink::AX25_KISS,
        203 => DataLink::LAPD,
        204 => DataLink::PPP_WITH_DIR,
        205 => DataLink::C_HDLC_WITH_DIR,
        206 => DataLink::FRELAY_WITH_DIR,
        209 => DataLink::IPMB_LINUX,
        215 => DataLink::IEEE802_15_4_NONASK_PHY,
        220 => DataLink::USB_LINUX_MMAPPED,
        224 => DataLink::FC_2,
        225 => DataLink::FC_2_WITH_FRAME_DELIMS,
        226 => DataLink::IPNET,
        227 => DataLink::CAN_SOCKETCAN,
        228 => DataLink::IPV4,
        229 => DataLink::IPV6,
        230 => DataLink::IEEE802_15_4_NOFCS,
        231 => DataLink::DBUS,
        235 => DataLink::DVB_CI,
        236 => DataLink::MUX27010,
        237 => DataLink::STANAG_5066_D_PDU,
        239 => DataLink::NFLOG,
        240 => DataLink::NETANALYZER,
        241 => DataLink::NETANALYZER_TRANSPARENT,
        242 => DataLink::IPOIB,
        243 => DataLink::MPEG_2_TS,
        244 => DataLink::NG40,
        245 => DataLink::NFC_LLCP,
        247 => DataLink::INFINIBAND,
        248 => DataLink::SCTP,
        249 => DataLink::USBPCAP,
        250 => DataLink::RTAC_SERIAL,
        251 => DataLink::BLUETOOTH_LE_LL,
        253 => DataLink::NETLINK,
        254 => DataLink::BLUETOOTH_LINUX_MONITOR,
        255 => DataLink::BLUETOOTH_BREDR_BB,
        256 => DataLink::BLUETOOTH_LE_LL_WITH_PHDR,
        257 => DataLink::PROFIBUS_DL,
        258 => DataLink::PKTAP,
        259 => DataLink::EPON,
        260 => DataLink::IPMI_HPM_2,
        261 => DataLink::ZWAVE_R1_R2,
        262 => DataLink::ZWAVE_R3,
        263 => DataLink::WATTSTOPPER_DLM,
        264 => DataLink::ISO_14443,
        265 => DataLink::RDS,
        266 => DataLink::USB_DARWIN,
        268 => DataLink::SDLC,
        _ => DataLink::Unknown(n),
    }
}

/// The code that stands for the link type `link`.
#[verifier::opaque]
pub open spec fn datalink_code(link: DataLink) -> u32 {
    match link {
        DataLink::NULL => 0,
        DataLink::ETHERNET => 1,
        DataLink::AX25 => 3,
        DataLink::IEEE802_5 => 6,
        DataLink::ARCNET_BSD => 7,
        DataLink::SLIP => 8,
        DataLink::PPP => 9,
        DataLink::FDDI => 10,
        DataLink::PPP_HDLC => 50,
        DataLink::PPP_ETHER => 51,
        DataLink::ATM_RFC1483 => 100,
        DataLink::RAW => 101,
        DataLink::C_HDLC => 104,
        DataLink::IEEE802_11 => 105,
        DataLink::FRELAY => 107,
        DataLink::LOOP => 108,
        DataLink::LINUX_SLL => 113,
        DataLink::LTALK => 114,
        DataLink::PFLOG => 117,
        DataLink::IEEE802_11_PRISM => 119,
        DataLink::IP_OVER_FC => 122,
        DataLink::SUNATM => 123,
        DataLink::IEEE802_11_RADIOTAP => 127,
        DataLink::ARCNET_LINUX => 129,
        DataLink::APPLE_IP_OVER_IEEE1394 => 138,
        DataLink::MTP2_WITH_PHDR => 139,
        DataLink::MTP2 => 140,
        DataLink::MTP3 => 141,
        DataLink::SCCP => 142,
        DataLink::DOCSIS => 143,
        DataLink::LINUX_IRDA => 144,
        DataLink::USER0 => 147,
        DataLink::USER1 => 148,
        DataLink::USER2 => 149,
        DataLink::USER3 => 150,
        DataLink::USER4 => 151,
        DataLink::USER5 => 152,
        DataLink::USER6 => 153,
        DataLink::USER7 => 154,
        DataLink::USER8 => 155,
        DataLink::USER9 => 156,
        DataLink::USER10 => 157,
        DataLink::USER11 => 158,
        DataLink::USER12 => 159,
        DataLink::USER13 => 160,
        DataLink::USER14 => 161,
        DataLink::USER15 => 162,
        DataLink::IEEE802_11_AVS => 163,
        DataLink::BACNET_MS_TP => 165,
        DataLink::PPP_PPPD => 166,
        DataLink::GPRS_LLC => 169,
        DataLink::GPF_T => 170,
        DataLink::GPF_F => 171,
        DataLink::LINUX_LAPD => 177,
        DataLink::BLUETOOTH_HCI_H4 => 187,
        DataLink::USB_LINUX => 189,
        DataLink::PPI => 192,
        DataLink::IEEE802_15_4 => 195,
        DataLink::SITA => 196,
        DataLink::ERF => 197,
        DataLink::BLUETOOTH_HCI_H4_WITH_PHDR => 201,
        DataLink::AX25_KISS => 202,
        DataLink::LAPD => 203,
        DataLink::PPP_WITH_DIR => 204,
        DataLink::C_HDLC_WITH_DIR => 205,
        DataLink::FRELAY_WITH_DIR => 206,
        DataLink::IPMB_LINUX => 209,
        DataLink::IEEE802_15_4_NONASK_PHY => 215,
        DataLink::USB_LINUX_MMAPPED => 220,
        DataLink::FC_2 => 224,
        DataLink::FC_2_WITH_FRAME_DELIMS => 225,
        DataLink::IPNET => 226,
        DataLink::CAN_SOCKETCAN => 227,
        DataLink::IPV4 => 228,
        DataLink::IPV6 => 229,
        DataLink::IEEE802_15_4_NOFCS => 230,
        DataLink::DBUS => 231,
        DataLink::DVB_CI => 235,
        DataLink::MUX27010 => 236,
        DataLink::STANAG_5066_D_PDU => 237,
        DataLink::NFLOG => 239,
        DataLink::NETANALYZER => 240,
        DataLink::NETANALYZER_TRANSPARENT => 241,
        DataLink::IPOIB => 242,
        DataLink::MPEG_2_TS => 243,
        DataLink::NG40 => 244,
        DataLink::NFC_LLCP => 245,
        DataLink::INFINIBAND => 247,
        DataLink::SCTP => 248,
        DataLink::USBPCAP => 249,
        DataLink::RTAC_SERIAL => 250,
        DataLink::BLUETOOTH_LE_LL => 251,
        DataLink::NETLINK => 253,
        DataLink::BLUETOOTH_LINUX_MONITOR => 254,
        DataLink::BLUETOOTH_BREDR_BB => 255,
        DataLink::BLUETOOTH_LE_LL_WITH_PHDR => 256,
        DataLink::PROFIBUS_DL => 257,
        DataLink::PKTAP => 258,
        DataLink::EPON => 259,
        DataLink::IPMI_HPM_2 => 260,
        DataLink::ZWAVE_R1_R2 => 261,
        DataLink::ZWAVE_R3 => 262,
        DataLink::WATTSTOPPER_DLM => 263,
        DataLink::ISO_14443 => 264,
        DataLink::RDS => 265,
        DataLink::USB_DARWIN => 266,
        DataLink::SDLC => 268,
        DataLink::Unknown(n) => n,
    }
}

impl DataLink {
    /// The link type that the code `n` stands for.
    pub fn from_code(n: u32) -> (r: DataLink)
        ensures
            r == datalink_of(n),
    {
        reveal(datalink_of);
        match n {
            0 => DataLink::NULL,
            1 => DataLink::ETHERNET,
            3 => DataLink::AX25,
            6 => DataLink::IEEE802_5,
            7 => DataLink::ARCNET_BSD,
            8 => DataLink::SLIP,
            9 => DataLink::PPP,
            10 => DataLink::FDDI,
            50 => DataLink::PPP_HDLC,
            51 => DataLink::PPP_ETHER,
            100 => DataLink::ATM_RFC1483,
            101 => DataLink::RAW,
            104 => DataLink::C_HDLC,
            105 => DataLink::IEEE802_11,
            107 => DataLink::FRELAY,
            108 => DataLink::LOOP,
            113 => DataLink::LINUX_SLL,
            114 => DataLink::LTALK,
            117 => DataLink::PFLOG,
            119 => DataLink::IEEE802_11_PRISM,
            122 => DataLink::IP_OVER_FC,
            123 => DataLink::SUNATM,
            127 => DataLink::IEEE802_11_RADIOTAP,
            129 => DataLink::ARCNET_LINUX,
            138 => DataLink::APPLE_IP_OVER_IEEE1394,
            139 => DataLink::MTP2_WITH_PHDR,
            140 => DataLink::MTP2,
            141 => DataLink::MTP3,
            142 => DataLink::SCCP,
            143 => DataLink::DOCSIS,
            144 => DataLink::LINUX_IRDA,
            147 => DataLink::USER0,
            148 => DataLink::USER1,
            149 => DataLink::USER2,
            150 => DataLink::USER3,
            151 => DataLink::USER4,
            152 => DataLink::USER5,
            153 => DataLink::USER6,
            154 => DataLink::USER7,
            155 => DataLink::USER8,
            156 => DataLink::USER9,
            157 => DataLink::USER10,
            158 => DataLink::USER11,
            159 => DataLink::USER12,
            160 => DataLink::USER13,
            161 => DataLink::USER14,
            162 => DataLink::USER15,
            163 => DataLink::IEEE802_11_AVS,
            165 => DataLink::BACNET_MS_TP,
            166 => DataLink::PPP_PPPD,
            169 => DataLink::GPRS_LLC,
            170 => DataLink::GPF_T,
            171 => DataLink::GPF_F,
            177 => DataLink::LINUX_LAPD,
            187 => DataLink::BLUETOOTH_HCI_H4,
            189 => DataLink::USB_LINUX,
            192 => DataLink::PPI,
            195 => DataLink::IEEE802_15_4,
            196 => DataLink::SITA,
            197 => DataLink::ERF,
            201 => DataLink::BLUETOOTH_HCI_H4_WITH_PHDR,
            202 => DataLink::AX25_KISS,
            203 => DataLink::LAPD,
            204 => DataLink::PPP_WITH_DIR,
            205 => DataLink::C_HDLC_WITH_DIR,
            206 => DataLink::FRELAY_WITH_DIR,
            209 => DataLink::IPMB_LINUX,
            215 => DataLink::IEEE802_15_4_NONASK_PHY,
            220 => DataLink::USB_LINUX_MMAPPED,
            224 => DataLink::FC_2,
            225 => DataLink::FC_2_WITH_FRAME_DELIMS,
            226 => DataLink::IPNET,
            227 => DataLink::CAN_SOCKETCAN,
            228 => DataLink::IPV4,
            229 => DataLink::IPV6,
            230 => DataLink::IEEE802_15_4_NOFCS,
            231 => DataLink::DBUS,
            235 => DataLink::DVB_CI,
            236 => DataLink::MUX27010,
            237 => DataLink::STANAG_5066_D_PDU,
            239 => DataLink::NFLOG,
            240 => DataLink::NETANALYZER,
            241 => DataLink::NETANALYZER_TRANSPARENT,
            242 => DataLink::IPOIB,
            243 => DataLink::MPEG_2_TS,
            244 => DataLink::NG40,
            245 => DataLink::NFC_LLCP,
            247 => DataLink::INFINIBAND,
            248 => DataLink::SCTP,
            249 => DataLink::USBPCAP,
            250 => DataLink::RTAC_SERIAL,
            251 => DataLink::BLUETOOTH_LE_LL,
            253 => DataLink::NETLINK,
            254 => DataLink::BLUETOOTH_LINUX_MONITOR,
            255 => DataLink::BLUETOOTH_BREDR_BB,
            256 => DataLink::BLUETOOTH_LE_LL_WITH_PHDR,
            257 => DataLink::PROFIBUS_DL,
            258 => DataLink::PKTAP,
            259 => DataLink::EPON,
            260 => DataLink::IPMI_HPM_2,
            261 => DataLink::ZWAVE_R1_R2,
            262 => DataLink::ZWAVE_R3,
            263 => DataLink::WATTSTOPPER_DLM,
            264 => DataLink::ISO_14443,
            265 => DataLink::RDS,
            266 => DataLink::USB_DARWIN,
            268 => DataLink::SDLC,
            _ => DataLink::Unknown(n),
        }
    }

    /// The code that stands for the link type.
    pub fn code(self) -> (r: u32)
        ensures
            r == datalink_code(self),
    {
        reveal(datalink_code);
        match self {
            DataLink::NULL => 0,
            DataLink::ETHERNET => 1,
            DataLink::AX25 => 3,
            DataLink::IEEE802_5 => 6,
            DataLink::ARCNET_BSD => 7,
            DataLink::SLIP => 8,
            DataLink::PPP => 9,
            DataLink::FDDI => 10,
            DataLink::PPP_HDLC => 50,
            DataLink::PPP_ETHER => 51,
            DataLink::ATM_RFC1483 => 100,
            DataLink::RAW => 101,
            DataLink::C_HDLC => 104,
            DataLink::IEEE802_11 => 105,
            DataLink::FRELAY => 107,
            DataLink::LOOP => 108,
            DataLink::LINUX_SLL => 113,
            DataLink::LTALK => 114,
            DataLink::PFLOG => 117,
            DataLink::IEEE802_11_PRISM => 119,
            DataLink::IP_OVER_FC => 122,
            DataLink::SUNATM => 123,
            DataLink::IEEE802_11_RADIOTAP => 127,
            DataLink::ARCNET_LINUX => 129,
            DataLink::APPLE_IP_OVER_IEEE1394 => 138,
            DataLink::MTP2_WITH_PHDR => 139,
            DataLink::MTP2 => 140,
            DataLink::MTP3 => 141,
            DataLink::SCCP => 142,
            DataLink::DOCSIS => 143,
            DataLink::LINUX_IRDA => 144,
            DataLink::USER0 => 147,
            DataLink::USER1 => 148,
            DataLink::USER2 => 149,
            DataLink::USER3 => 150,
            DataLink::USER4 => 151,
            DataLink::USER5 => 152,
            DataLink::USER6 => 153,
            DataLink::USER7 => 154,
            DataLink::USER8 => 155,
            DataLink::USER9 => 156,
            DataLink::USER10 => 157,
            DataLink::USER11 => 158,
            DataLink::USER12 => 159,
            DataLink::USER13 => 160,
            DataLink::USER14 => 161,
            DataLink::USER15 => 162,
            DataLink::IEEE802_11_AVS => 163,
            DataLink::BACNET_MS_TP => 165,
            DataLink::PPP_PPPD => 166,
            DataLink::GPRS_LLC => 169,
            DataLink::GPF_T => 170,
            DataLink::GPF_F => 171,
            DataLink::LINUX_LAPD => 177,
            DataLink::BLUETOOTH_HCI_H4 => 187,
            DataLink::USB_LINUX => 189,
            DataLink::PPI => 192,
            DataLink::IEEE802_15_4 => 195,
            DataLink::SITA => 196,
            DataLink::ERF => 197,
            DataLink::BLUETOOTH_HCI_H4_WITH_PHDR => 201,
            DataLink::AX25_KISS => 202,
            DataLink::LAPD => 203,
            DataLink::PPP_WITH_DIR => 204,
            DataLink::C_HDLC_WITH_DIR => 205,
            DataLink::FRELAY_WITH_DIR => 206,
            DataLink::IPMB_LINUX => 209,
            DataLink::IEEE802_15_4_NONASK_PHY => 215,
            DataLink::USB_LINUX_MMAPPED => 220,
            DataLink::FC_2 => 224,
            DataLink::FC_2_WITH_FRAME_DELIMS => 225,
            DataLink::IPNET => 226,
            DataLink::CAN_SOCKETCAN => 227,
            DataLink::IPV4 => 228,
            DataLink::IPV6 => 229,
            DataLink::IEEE802_15_4_NOFCS => 230,
            DataLink::DBUS => 231,
            DataLink::DVB_CI => 235,
            DataLink::MUX27010 => 236,
            DataLink::STANAG_5066_D_PDU => 237,
            DataLink::NFLOG => 239,
            DataLink::NETANALYZER => 240,
            DataLink::NETANALYZER_TRANSPARENT => 241,
            DataLink::IPOIB => 242,
            DataLink::MPEG_2_TS => 243,
            DataLink::NG40 => 244,
            DataLink::NFC_LLCP => 245,
            DataLink::INFINIBAND => 247,
            DataLink::SCTP => 248,
            DataLink::USBPCAP => 249,
            DataLink::RTAC_SERIAL => 250,
            DataLink::BLUETOOTH_LE_LL => 251,
            DataLink::NETLINK => 253,
            DataLink::BLUETOOTH_LINUX_MONITOR => 254,
            DataLink::BLUETOOTH_BREDR_BB => 255,
            DataLink::BLUETOOTH_LE_LL_WITH_PHDR => 256,
            DataLink::PROFIBUS_DL => 257,
            DataLink::PKTAP => 258,
            DataLink::EPON => 259,
            DataLink::IPMI_HPM_2 => 260,
            DataLink::ZWAVE_R1_R2 => 261,
            DataLink::ZWAVE_R3 => 262,
            DataLink::WATTSTOPPER_DLM => 263,
            DataLink::ISO_14443 => 264,
            DataLink::RDS => 265,
            DataLink::USB_DARWIN => 266,
            DataLink::SDLC => 268,
            DataLink::Unknown(n) => n,
        }
    }
}

impl From<u32> for DataLink {
    fn from(n: u32) -> (r: DataLink) {
        DataLink::from_code(n)
    }
}

impl FromSpecImpl<u32> for DataLink {
    open spec fn obeys_from_spec() -> bool {
        true
    }

    open spec fn from_spec(n: u32) -> DataLink {
        datalink_of(n)
    }
}

impl From<DataLink> for u32 {
    fn from(link: DataLink) -> (r: u32) {
        link.code()
    }
}

impl FromSpecImpl<DataLink> for u32 {
    open spec fn obeys_from_spec() -> bool {
        true
    }

    open spec fn from_spec(link: DataLink) -> u32 {
        datalink_code(link)
    }
}

/// Every code survives the passage through the catalogue: the link type of a
/// code has that code.
pub proof fn lemma_datalink_code_of(n: u32)
    ensures
        datalink_code(datalink_of(n)) == n,
{
    reveal(datalink_of);
    reveal(datalink_code);
}

/// A link type survives the passage through its code unless it is an
/// `Unknown` that holds a catalogued code.
pub proof fn lemma_datalink_of_code(link: DataLink)
    requires
        link matches DataLink::Unknown(n) ==> datalink_of(n) == link,
    ensures
        datalink_of(datalink_code(link)) == link,
{
    reveal(datalink_of);
    reveal(datalink_code);
}

} // verus!
