use vstd::prelude::*;

use crate::parse_error::ParseError;
use crate::parse_error::ParseResult;
use crate::parsing::Reader;
use crate::parsing::be_at;
use crate::serializing::Writer;
use crate::serializing::be_bytes;

verus! {

/// Resource record types of the IANA registry. Codes without an individual
/// meaning fall into the bands `Unassigned`, `PrivateUse` and `Reserved`.
#[derive(Debug, Clone, Copy, PartialEq, Eq, Structural)]
pub enum RRType {
    A,
    NS,
    MD,
    MF,
    CNAME,
    SOA,
    MB,
    MG,
    MR,
    NULL,
    WKS,
    PTR,
    HINFO,
    MINFO,
    MX,
    TXT,
    RP,
    AFSDB,
    X25,
    ISDN,
    RT,
    NSAP,
    NsapPtr,
    SIG,
    KEY,
    PX,
    GPOS,
    AAAA,
    LOC,
    NXT,
    EID,
    NIMLOC,
    SRV,
    ATMA,
    NAPTR,
    KX,
    CERT,
    A6,
    DNAME,
    SINK,
    OPT,
    APL,
    DS,
    SSHFP,
    IPSECKEY,
    RRSIG,
    NSEC,
    DNSKEY,
    DHCID,
    NSEC3,
    NSEC3PARAM,
    TLSA,
    SMIMEA,
    HIP,
    NINFO,
    RKEY,
    TALINK,
    CDS,
    CDNSKEY,
    OPENPGPKEY,
    CSYNC,
    ZONEMD,
    SVCB,
    HTTPS,
    SPF,
    UINFO,
    UID,
    GID,
    UNSPEC,
    NID,
    L32,
    L64,
    LP,
    EUI48,
    EUI64,
    TKEY,
    TSIG,
    IXFR,
    AXFR,
    MAILB,
    MAILA,
    All,
    URI,
    CAA,
    AVC,
    DOA,
    AMTRELAY,
    TA,
    DLV,
    PrivateUse,
    Reserved,
    Unassigned,
}

/// The type that a 16-bit wire code stands for.
pub open spec fn rr_type_of_code(code: u16) -> RRType {
    match code {
        0 => RRType::Reserved,
        1 => RRType::A,
        2 => RRType::NS,
        3 => RRType::MD,
        4 => RRType::MF,
        5 => RRType::CNAME,
        6 => RRType::SOA,
        7 => RRType::MB,
        8 => RRType::MG,
        9 => RRType::MR,
        10 => RRType::NULL,
        11 => RRType::WKS,
        12 => RRType::PTR,
        13 => RRType::HINFO,
        14 => RRType::MINFO,
        15 => RRType::MX,
        16 => RRType::TXT,
        17 => RRType::RP,
        18 => RRType::AFSDB,
        19 => RRType::X25,
        20 => RRType::ISDN,
        21 => RRType::RT,
        22 => RRType::NSAP,
        23 => RRType::NsapPtr,
        24 => RRType::SIG,
        25 => RRType::KEY,
        26 => RRType::PX,
        27 => RRType::GPOS,
        28 => RRType::AAAA,
        29 => RRType::LOC,
        30 => RRType::NXT,
        31 => RRType::EID,
        32 => RRType::NIMLOC,
        33 => RRType::SRV,
        34 => RRType::ATMA,
        35 => RRType::NAPTR,
        36 => RRType::KX,
        37 => RRType::CERT,
        38 => RRType::A6,
        39 => RRType::DNAME,
        40 => RRType::SINK,
        41 => RRType::OPT,
        42 => RRType::APL,
        43 => RRType::DS,
        44 => RRType::SSHFP,
        45 => RRType::IPSECKEY,
        46 => RRType::RRSIG,
        47 => RRType::NSEC,
        48 => RRType::DNSKEY,
        49 => RRType::DHCID,
        50 => RRType::NSEC3,
        51 => RRType::NSEC3PARAM,
        52 => RRType::TLSA,
        53 => RRType::SMIMEA,
        54 => RRType::Unassigned,
        55 => RRType::HIP,
        56 => RRType::NINFO,
        57 => RRType::RKEY,
        58 => RRType::TALINK,
        59 => RRType::CDS,
        60 => RRType::CDNSKEY,
        61 => RRType::OPENPGPKEY,
        62 => RRType::CSYNC,
        63 => RRType::ZONEMD,
        64 => RRType::SVCB,
        65 => RRType::HTTPS,
        99 => RRType::SPF,
        100 => RRType::UINFO,
        101 => RRType::UID,
        102 => RRType::GID,
        103 => RRType::UNSPEC,
        104 => RRType::NID,
        105 => RRType::L32,
        106 => RRType::L64,
        107 => RRType::LP,
        108 => RRType::EUI48,
        109 => RRType::EUI64,
        249 => RRType::TKEY,
        250 => RRType::TSIG,
        251 => RRType::IXFR,
        252 => RRType::AXFR,
        253 => RRType::MAILB,
        254 => RRType::MAILA,
        255 => RRType::All,
        256 => RRType::URI,
        257 => RRType::CAA,
        258 => RRType::AVC,
        259 => RRType::DOA,
        260 => RRType::AMTRELAY,
        32768 => RRType::TA,
        32769 => RRType::DLV,
        65535 => RRType::Reserved,
        _ => if 65280 <= code && code <= 65534 {
            RRType::PrivateUse
        } else {
            RRType::Unassigned
        },
    }
}

/// The wire code written for a type; one representative for each band.
pub open spec fn code_of_rr_type(t: RRType) -> u16 {
    match t {
        RRType::A => 1,
        RRType::NS => 2,
        RRType::MD => 3,
        RRType::MF => 4,
        RRType::CNAME => 5,
        RRType::SOA => 6,
        RRType::MB => 7,
        RRType::MG => 8,
        RRType::MR => 9,
        RRType::NULL => 10,
        RRType::WKS => 11,
        RRType::PTR => 12,
        RRType::HINFO => 13,
        RRType::MINFO => 14,
        RRType::MX => 15,
        RRType::TXT => 16,
        RRType::RP => 17,
        RRType::AFSDB => 18,
        RRType::X25 => 19,
        RRType::ISDN => 20,
        RRType::RT => 21,
        RRType::NSAP => 22,
        RRType::NsapPtr => 23,
        RRType::SIG => 24,
        RRType::KEY => 25,
        RRType::PX => 26,
        RRType::GPOS => 27,
        RRType::AAAA => 28,
        RRType::LOC => 29,
        RRType::NXT => 30,
        RRType::EID => 31,
        RRType::NIMLOC => 32,
        RRType::SRV => 33,
        RRType::ATMA => 34,
        RRType::NAPTR => 35,
        RRType::KX => 36,
        RRType::CERT => 37,
        RRType::A6 => 38,
        RRType::DNAME => 39,
        RRType::SINK => 40,
        RRType::OPT => 41,
        RRType::APL => 42,
        RRType::DS => 43,
        RRType::SSHFP => 44,
        RRType::IPSECKEY => 45,
        RRType::RRSIG => 46,
        RRType::NSEC => 47,
        RRType::DNSKEY => 48,
        RRType::DHCID => 49,
        RRType::NSEC3 => 50,
        RRType::NSEC3PARAM => 51,
        RRType::TLSA => 52,
        RRType::SMIMEA => 53,
        RRType::HIP => 55,
        RRType::NINFO => 56,
        RRType::RKEY => 57,
        RRType::TALINK => 58,
        RRType::CDS => 59,
        RRType::CDNSKEY => 60,
        RRType::OPENPGPKEY => 61,
        RRType::CSYNC => 62,
        RRType::ZONEMD => 63,
        RRType::SVCB => 64,
        RRType::HTTPS => 65,
        RRType::SPF => 99,
        RRType::UINFO => 100,
        RRType::UID => 101,
        RRType::GID => 102,
        RRType::UNSPEC => 103,
        RRType::NID => 104,
        RRType::L32 => 105,
        RRType::L64 => 106,
        RRType::LP => 107,
        RRType::EUI48 => 108,
        RRType::EUI64 => 109,
        RRType::TKEY => 249,
        RRType::TSIG => 250,
        RRType::IXFR => 251,
        RRType::AXFR => 252,
        RRType::MAILB => 253,
        RRType::MAILA => 254,
        RRType::All => 255,
        RRType::URI => 256,
        RRType::CAA => 257,
        RRType::AVC => 258,
        RRType::DOA => 259,
        RRType::AMTRELAY => 260,
        RRType::TA => 32768,
        RRType::DLV => 32769,
        RRType::PrivateUse => 65280,
        RRType::Reserved => 0,
        RRType::Unassigned => 54,
    }
}

/// The type's mnemonic, as the registry writes it.
pub open spec fn rr_type_mnemonic(t: RRType) -> Seq<char> {
    match t {
        RRType::A => "A"@,
        RRType::NS => "NS"@,
        RRType::MD => "MD"@,
        RRType::MF => "MF"@,
        RRType::CNAME => "CNAME"@,
        RRType::SOA => "SOA"@,
        RRType::MB => "MB"@,
        RRType::MG => "MG"@,
        RRType::MR => "MR"@,
        RRType::NULL => "NULL"@,
        RRType::WKS => "WKS"@,
        RRType::PTR => "PTR"@,
        RRType::HINFO => "HINFO"@,
        RRType::MINFO => "MINFO"@,
        RRType::MX => "MX"@,
        RRType::TXT => "TXT"@,
        RRType::RP => "RP"@,
        RRType::AFSDB => "AFSDB"@,
        RRType::X25 => "X25"@,
        RRType::ISDN => "ISDN"@,
        RRType::RT => "RT"@,
        RRType::NSAP => "NSAP"@,
        RRType::NsapPtr => "NsapPtr"@,
        RRType::SIG => "SIG"@,
        RRType::KEY => "KEY"@,
        RRType::PX => "PX"@,
        RRType::GPOS => "GPOS"@,
        RRType::AAAA => "AAAA"@,
        RRType::LOC => "LOC"@,
        RRType::NXT => "NXT"@,
        RRType::EID => "EID"@,
        RRType::NIMLOC => "NIMLOC"@,
        RRType::SRV => "SRV"@,
        RRType::ATMA => "ATMA"@,
        RRType::NAPTR => "NAPTR"@,
        RRType::KX => "KX"@,
        RRType::CERT => "CERT"@,
        RRType::A6 => "A6"@,
        RRType::DNAME => "DNAME"@,
        RRType::SINK => "SINK"@,
        RRType::OPT => "OPT"@,
        RRType::APL => "APL"@,
        RRType::DS => "DS"@,
        RRType::SSHFP => "SSHFP"@,
        RRType::IPSECKEY => "IPSECKEY"@,
        RRType::RRSIG => "RRSIG"@,
        RRType::NSEC => "NSEC"@,
        RRType::DNSKEY => "DNSKEY"@,
        RRType::DHCID => "DHCID"@,
        RRType::NSEC3 => "NSEC3"@,
        RRType::NSEC3PARAM => "NSEC3PARAM"@,
        RRType::TLSA => "TLSA"@,
        RRType::SMIMEA => "SMIMEA"@,
        RRType::HIP => "HIP"@,
        RRType::NINFO => "NINFO"@,
        RRType::RKEY => "RKEY"@,
        RRType::TALINK => "TALINK"@,
        RRType::CDS => "CDS"@,
        RRType::CDNSKEY => "CDNSKEY"@,
        RRType::OPENPGPKEY => "OPENPGPKEY"@,
        RRType::CSYNC => "CSYNC"@,
        RRType::ZONEMD => "ZONEMD"@,
        RRType::SVCB => "SVCB"@,
        RRType::HTTPS => "HTTPS"@,
        RRType::SPF => "SPF"@,
        RRType::UINFO => "UINFO"@,
        RRType::UID => "UID"@,
        RRType::GID => "GID"@,
        RRType::UNSPEC => "UNSPEC"@,
        RRType::NID => "NID"@,
        RRType::L32 => "L32"@,
        RRType::L64 => "L64"@,
        RRType::LP => "LP"@,
        RRType::EUI48 => "EUI48"@,
        RRType::EUI64 => "EUI64"@,
        RRType::TKEY => "TKEY"@,
        RRType::TSIG => "TSIG"@,
        RRType::IXFR => "IXFR"@,
        RRType::AXFR => "AXFR"@,
        RRType::MAILB => "MAILB"@,
        RRType::MAILA => "MAILA"@,
        RRType::All => "All"@,
        RRType::URI => "URI"@,
        RRType::CAA => "CAA"@,
        RRType::AVC => "AVC"@,
        RRType::DOA => "DOA"@,
        RRType::AMTRELAY => "AMTRELAY"@,
        RRType::TA => "TA"@,
        RRType::DLV => "DLV"@,
        RRType::PrivateUse => "PrivateUse"@,
        RRType::Reserved => "Reserved"@,
        RRType::Unassigned => "Unassigned"@,
    }
}

/// A type is a band when several codes stand for it.
pub open spec fn is_band(t: RRType) -> bool {
    t == RRType::Unassigned || t == RRType::PrivateUse || t == RRType::Reserved
}

impl RRType {
    pub fn from_code(code: u16) -> (r: RRType)
        ensures
            r == rr_type_of_code(code),
    {
        match code {
            0 => RRType::Reserved,
            1 => RRType::A,
            2 => RRType::NS,
            3 => RRType::MD,
            4 => RRType::MF,
            5 => RRType::CNAME,
            6 => RRType::SOA,
            7 => RRType::MB,
            8 => RRType::MG,
            9 => RRType::MR,
            10 => RRType::NULL,
            11 => RRType::WKS,
            12 => RRType::PTR,
            13 => RRType::HINFO,
            14 => RRType::MINFO,
            15 => RRType::MX,
            16 => RRType::TXT,
            17 => RRType::RP,
            18 => RRType::AFSDB,
            19 => RRType::X25,
            20 => RRType::ISDN,
            21 => RRType::RT,
            22 => RRType::NSAP,
            23 => RRType::NsapPtr,
            24 => RRType::SIG,
            25 => RRType::KEY,
            26 => RRType::PX,
            27 => RRType::GPOS,
            28 => RRType::AAAA,
            29 => RRType::LOC,
            30 => RRType::NXT,
            31 => RRType::EID,
            32 => RRType::NIMLOC,
            33 => RRType::SRV,
            34 => RRType::ATMA,
            35 => RRType::NAPTR,
            36 => RRType::KX,
            37 => RRType::CERT,
            38 => RRType::A6,
            39 => RRType::DNAME,
            40 => RRType::SINK,
            41 => RRType::OPT,
            42 => RRType::APL,
            43 => RRType::DS,
            44 => RRType::SSHFP,
            45 => RRType::IPSECKEY,
            46 => RRType::RRSIG,
            47 => RRType::NSEC,
            48 => RRType::DNSKEY,
            49 => RRType::DHCID,
            50 => RRType::NSEC3,
            51 => RRType::NSEC3PARAM,
            52 => RRType::TLSA,
            53 => RRType::SMIMEA,
            54 => RRType::Unassigned,
            55 => RRType::HIP,
            56 => RRType::NINFO,
            57 => RRType::RKEY,
            58 => RRType::TALINK,
            59 => RRType::CDS,
            60 => RRType::CDNSKEY,
            61 => RRType::OPENPGPKEY,
            62 => RRType::CSYNC,
            63 => RRType::ZONEMD,
            64 => RRType::SVCB,
            65 => RRType::HTTPS,
            99 => RRType::SPF,
            100 => RRType::UINFO,
            101 => RRType::UID,
            102 => RRType::GID,
            103 => RRType::UNSPEC,
            104 => RRType::NID,
            105 => RRType::L32,
            106 => RRType::L64,
            107 => RRType::LP,
            108 => RRType::EUI48,
            109 => RRType::EUI64,
            249 => RRType::TKEY,
            250 => RRType::TSIG,
            251 => RRType::IXFR,
            252 => RRType::AXFR,
            253 => RRType::MAILB,
            254 => RRType::MAILA,
            255 => RRType::All,
            256 => RRType::URI,
            257 => RRType::CAA,
            258 => RRType::AVC,
            259 => RRType::DOA,
            260 => RRType::AMTRELAY,
            32768 => RRType::TA,
            32769 => RRType::DLV,
            65535 => RRType::Reserved,
            _ => if 65280 <= code && code <= 65534 {
                RRType::PrivateUse
            } else {
                RRType::Unassigned
            },
        }
    }

    pub fn code(&self) -> (r: u16)
        ensures
            r == code_of_rr_type(*self),
    {
        match self {
            RRType::A => 1,
            RRType::NS => 2,
            RRType::MD => 3,
            RRType::MF => 4,
            RRType::CNAME => 5,
            RRType::SOA => 6,
            RRType::MB => 7,
            RRType::MG => 8,
            RRType::MR => 9,
            RRType::NULL => 10,
            RRType::WKS => 11,
            RRType::PTR => 12,
            RRType::HINFO => 13,
            RRType::MINFO => 14,
            RRType::MX => 15,
            RRType::TXT => 16,
            RRType::RP => 17,
            RRType::AFSDB => 18,
            RRType::X25 => 19,
            RRType::ISDN => 20,
            RRType::RT => 21,
            RRType::NSAP => 22,
            RRType::NsapPtr => 23,
            RRType::SIG => 24,
            RRType::KEY => 25,
            RRType::PX => 26,
            RRType::GPOS => 27,
            RRType::AAAA => 28,
            RRType::LOC => 29,
            RRType::NXT => 30,
            RRType::EID => 31,
            RRType::NIMLOC => 32,
            RRType::SRV => 33,
            RRType::ATMA => 34,
            RRType::NAPTR => 35,
            RRType::KX => 36,
            RRType::CERT => 37,
            RRType::A6 => 38,
            RRType::DNAME => 39,
            RRType::SINK => 40,
            RRType::OPT => 41,
            RRType::APL => 42,
            RRType::DS => 43,
            RRType::SSHFP => 44,
            RRType::IPSECKEY => 45,
            RRType::RRSIG => 46,
            RRType::NSEC => 47,
            RRType::DNSKEY => 48,
            RRType::DHCID => 49,
            RRType::NSEC3 => 50,
            RRType::NSEC3PARAM => 51,
            RRType::TLSA => 52,
            RRType::SMIMEA => 53,
            RRType::HIP => 55,
            RRType::NINFO => 56,
            RRType::RKEY => 57,
            RRType::TALINK => 58,
            RRType::CDS => 59,
            RRType::CDNSKEY => 60,
            RRType::OPENPGPKEY => 61,
            RRType::CSYNC => 62,
            RRType::ZONEMD => 63,
            RRType::SVCB => 64,
            RRType::HTTPS => 65,
            RRType::SPF => 99,
            RRType::UINFO => 100,
            RRType::UID => 101,
            RRType::GID => 102,
            RRType::UNSPEC => 103,
            RRType::NID => 104,
            RRType::L32 => 105,
            RRType::L64 => 106,
            RRType::LP => 107,
            RRType::EUI48 => 108,
            RRType::EUI64 => 109,
            RRType::TKEY => 249,
            RRType::TSIG => 250,
            RRType::IXFR => 251,
            RRType::AXFR => 252,
            RRType::MAILB => 253,
            RRType::MAILA => 254,
            RRType::All => 255,
            RRType::URI => 256,
            RRType::CAA => 257,
            RRType::AVC => 258,
            RRType::DOA => 259,
            RRType::AMTRELAY => 260,
            RRType::TA => 32768,
            RRType::DLV => 32769,
            RRType::PrivateUse => 65280,
            RRType::Reserved => 0,
            RRType::Unassigned => 54,
        }
    }

    pub fn mnemonic(&self) -> (r: &'static str)
        ensures
            r@ == rr_type_mnemonic(*self),
    {
        match self {
            RRType::A => "A",
            RRType::NS => "NS",
            RRType::MD => "MD",
            RRType::MF => "MF",
            RRType::CNAME => "CNAME",
            RRType::SOA => "SOA",
            RRType::MB => "MB",
            RRType::MG => "MG",
            RRType::MR => "MR",
            RRType::NULL => "NULL",
            RRType::WKS => "WKS",
            RRType::PTR => "PTR",
            RRType::HINFO => "HINFO",
            RRType::MINFO => "MINFO",
            RRType::MX => "MX",
            RRType::TXT => "TXT",
            RRType::RP => "RP",
            RRType::AFSDB => "AFSDB",
            RRType::X25 => "X25",
            RRType::ISDN => "ISDN",
            RRType::RT => "RT",
            RRType::NSAP => "NSAP",
            RRType::NsapPtr => "NsapPtr",
            RRType::SIG => "SIG",
            RRType::KEY => "KEY",
            RRType::PX => "PX",
            RRType::GPOS => "GPOS",
            RRType::AAAA => "AAAA",
            RRType::LOC => "LOC",
            RRType::NXT => "NXT",
            RRType::EID => "EID",
            RRType::NIMLOC => "NIMLOC",
            RRType::SRV => "SRV",
            RRType::ATMA => "ATMA",
            RRType::NAPTR => "NAPTR",
            RRType::KX => "KX",
            RRType::CERT => "CERT",
            RRType::A6 => "A6",
            RRType::DNAME => "DNAME",
            RRType::SINK => "SINK",
            RRType::OPT => "OPT",
            RRType::APL => "APL",
            RRType::DS => "DS",
            RRType::SSHFP => "SSHFP",
            RRType::IPSECKEY => "IPSECKEY",
            RRType::RRSIG => "RRSIG",
            RRType::NSEC => "NSEC",
            RRType::DNSKEY => "DNSKEY",
            RRType::DHCID => "DHCID",
            RRType::NSEC3 => "NSEC3",
            RRType::NSEC3PARAM => "NSEC3PARAM",
            RRType::TLSA => "TLSA",
            RRType::SMIMEA => "SMIMEA",
            RRType::HIP => "HIP",
            RRType::NINFO => "NINFO",
            RRType::RKEY => "RKEY",
            RRType::TALINK => "TALINK",
            RRType::CDS => "CDS",
            RRType::CDNSKEY => "CDNSKEY",
            RRType::OPENPGPKEY => "OPENPGPKEY",
            RRType::CSYNC => "CSYNC",
            RRType::ZONEMD => "ZONEMD",
            RRType::SVCB => "SVCB",
            RRType::HTTPS => "HTTPS",
            RRType::SPF => "SPF",
            RRType::UINFO => "UINFO",
            RRType::UID => "UID",
            RRType::GID => "GID",
            RRType::UNSPEC => "UNSPEC",
            RRType::NID => "NID",
            RRType::L32 => "L32",
            RRType::L64 => "L64",
            RRType::LP => "LP",
            RRType::EUI48 => "EUI48",
            RRType::EUI64 => "EUI64",
            RRType::TKEY => "TKEY",
            RRType::TSIG => "TSIG",
            RRType::IXFR => "IXFR",
            RRType::AXFR => "AXFR",
            RRType::MAILB => "MAILB",
            RRType::MAILA => "MAILA",
            RRType::All => "All",
            RRType::URI => "URI",
            RRType::CAA => "CAA",
            RRType::AVC => "AVC",
            RRType::DOA => "DOA",
            RRType::AMTRELAY => "AMTRELAY",
            RRType::TA => "TA",
            RRType::DLV => "DLV",
            RRType::PrivateUse => "PrivateUse",
            RRType::Reserved => "Reserved",
            RRType::Unassigned => "Unassigned",
        }
    }

    /// The type whose mnemonic is `name`, if there is one.
    pub fn from_mnemonic(name: &str) -> (r: Option<RRType>)
        ensures
            r is Some ==> rr_type_mnemonic(r->Some_0) == name@,
            r is None ==> forall|t: RRType| rr_type_mnemonic(t) != name@,
    {
        let wanted = name.to_owned();
        let mut code: u32 = 0;
        while code <= 0xffff
            invariant
                code <= 0x1_0000,
                wanted@ == name@,
                forall|c: u16| c < code ==> rr_type_mnemonic(#[trigger] rr_type_of_code(c)) != name@,
            decreases 0x1_0000 - code,
        {
            let t = RRType::from_code(code as u16);
            if t.mnemonic().to_owned() == wanted {
                return Some(t);
            }
            code = code + 1;
        }
        proof {
            assert forall|t: RRType| rr_type_mnemonic(t) != name@ by {
                lemma_rr_type_round_trip(t);
                let c = code_of_rr_type(t);
                assert(rr_type_mnemonic(rr_type_of_code(c)) != name@);
            }
        }
        None
    }

    pub fn parse(reader: &mut Reader) -> (r: ParseResult<RRType>)
        ensures
            final(reader).data() == old(reader).data(),
            old(reader).fits(2) ==> r == Ok::<RRType, ParseError>(
                rr_type_of_code(be_at(old(reader).data(), old(reader).pos(), 2) as u16),
            ) && final(reader).pos() == old(reader).pos() + 2,
            !old(reader).fits(2) ==> r is Err && r->Err_0 is BufferReadError,
    {
        match reader.read_u16() {
            Ok(v) => Ok(RRType::from_code(v)),
            Err(e) => Err(ParseError::BufferReadError(e)),
        }
    }

    pub fn serialize(&self, writer: &mut Writer)
        ensures
            final(writer)@ == old(writer)@ + be_bytes(code_of_rr_type(*self) as nat, 2),
            forall|k: Seq<char>| #[trigger] final(writer).label_offset(k) == old(writer).label_offset(k),
    {
        writer.write_u16(self.code());
    }
}

/// Decoding the code written for a type gives the type back, bands included.
pub proof fn lemma_rr_type_round_trip(t: RRType)
    ensures
        rr_type_of_code(code_of_rr_type(t)) == t,
{
}

/// Encoding the type of a code outside the bands gives the code back.
pub proof fn lemma_rr_type_code_round_trip(code: u16)
    requires
        !is_band(rr_type_of_code(code)),
    ensures
        code_of_rr_type(rr_type_of_code(code)) == code,
{
}

} // verus!
