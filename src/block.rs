//! The block parser: splits a capture buffer into blocks by their length
//! fields and decodes each block by its type tag.

use crate::endian::{le_at, read_u16_at, read_u32_at, read_u64_at};
use vstd::prelude::*;

verus! {

/// Tag of the section header block.
pub const TAG_SECTION_HEADER: u32 = 0x0A0D0D0A;

/// Tag of the interface description block.
pub const TAG_INTERFACE_DESCRIPTION: u32 = 1;

/// Tag of the obsolete packet block.
pub const TAG_PACKET: u32 = 2;

/// Tag of the simple packet block.
pub const TAG_SIMPLE_PACKET: u32 = 3;

/// Tag of the name resolution block.
pub const TAG_NAME_RESOLUTION: u32 = 4;

/// Tag of the interface statistics block.
pub const TAG_INTERFACE_STATISTICS: u32 = 5;

/// Tag of the enhanced packet block.
pub const TAG_ENHANCED_PACKET: u32 = 6;

/// The smallest block: a type tag and a length field.
pub const MIN_BLOCK_LEN: u64 = 8;

/// An owned byte region whose structure is not decoded.
pub struct HexData(pub Vec<u8>);

impl View for HexData {
    type V = Seq<u8>;

    open spec fn view(&self) -> Seq<u8> {
        self.0@
    }
}

/// One decoded block.
pub enum Packet {
    /// The section header, which marks the start of a capture.
    Header,
    /// One capture interface: its link type, its snapshot length, and its
    /// options region kept undecoded.
    IfaceDescr { link_type: u16, snap_num: u32, options: HexData },
    /// The obsolete packet block, not decoded further.
    Packet,
    /// The simple packet block, not decoded further.
    SimplePacket,
    /// The name resolution block, not decoded further.
    NameResolution,
    /// The interface statistics block, not decoded further.
    IfaceStatistics,
    /// A captured packet. `cap_len` is taken as written: it is not compared
    /// with the length of `content`.
    EnhancedBlock { iface_id: u32, timestamp: u64, orig_len: u32, cap_len: u32, content: HexData },
}

/// The mathematical value of a [`Packet`]: its opaque regions as byte sequences.
pub enum PacketView {
    Header,
    IfaceDescr { link_type: u16, snap_num: u32, options: Seq<u8> },
    Packet,
    SimplePacket,
    NameResolution,
    IfaceStatistics,
    EnhancedBlock { iface_id: u32, timestamp: u64, orig_len: u32, cap_len: u32, content: Seq<u8> },
}

impl View for Packet {
    type V = PacketView;

    open spec fn view(&self) -> PacketView {
        match self {
            Packet::Header => PacketView::Header,
            Packet::IfaceDescr { link_type, snap_num, options } => PacketView::IfaceDescr {
                link_type: *link_type,
                snap_num: *snap_num,
                options: options@,
            },
            Packet::Packet => PacketView::Packet,
            Packet::SimplePacket => PacketView::SimplePacket,
            Packet::NameResolution => PacketView::NameResolution,
            Packet::IfaceStatistics => PacketView::IfaceStatistics,
            Packet::EnhancedBlock { iface_id, timestamp, orig_len, cap_len, content } =>
                PacketView::EnhancedBlock {
                iface_id: *iface_id,
                timestamp: *timestamp,
                orig_len: *orig_len,
                cap_len: *cap_len,
                content: content@,
            },
        }
    }
}

/// Type of an option entry in the options region of a block.
#[derive(Debug, Clone, Copy, PartialEq, Eq, Structural)]
pub enum OptionType {
    EndOfOpts,
    Name,
    Descr,
    Ip4Addr,
    Ip6Addr,
    Unknown,
}

impl OptionType {
    /// The option code as written in the file.
    pub fn code(&self) -> (r: u8)
        ensures
            r == match self {
                OptionType::EndOfOpts => 0u8,
                OptionType::Name => 2u8,
                OptionType::Descr => 3u8,
                OptionType::Ip4Addr => 4u8,
                OptionType::Ip6Addr => 5u8,
                OptionType::Unknown => 255u8,
            },
    {
        match self {
            OptionType::EndOfOpts => 0,
            OptionType::Name => 2,
            OptionType::Descr => 3,
            OptionType::Ip4Addr => 4,
            OptionType::Ip6Addr => 5,
            OptionType::Unknown => 255,
        }
    }
}

/// Why a capture buffer could not be decoded.
#[derive(Debug, Clone, Copy, PartialEq, Eq, Structural)]
pub enum ParseError {
    /// A block's type tag is none of the known ones.
    UnknownBlockType,
    /// A field would be read past the end of the buffer or of its block.
    TruncatedInput,
    /// A block's padded length is below the size of a tag and a length field.
    DegenerateLength,
}

/// The record that a block body decodes to. The body starts with the
/// block's type tag and ends before its trailing length field.
pub open spec fn decode_spec(body: Seq<u8>) -> Result<PacketView, ParseError> {
    if body.len() < 4 {
        Err(ParseError::TruncatedInput)
    } else {
        let tag = le_at(body, 0, 4);
        if tag == TAG_SECTION_HEADER {
            Ok(PacketView::Header)
        } else if tag == TAG_INTERFACE_DESCRIPTION {
            if body.len() < 12 {
                Err(ParseError::TruncatedInput)
            } else {
                Ok(
                    PacketView::IfaceDescr {
                        link_type: le_at(body, 4, 2) as u16,
                        snap_num: le_at(body, 8, 4) as u32,
                        options: body.subrange(12, body.len() as int),
                    },
                )
            }
        } else if tag == TAG_PACKET {
            Ok(PacketView::Packet)
        } else if tag == TAG_SIMPLE_PACKET {
            Ok(PacketView::SimplePacket)
        } else if tag == TAG_NAME_RESOLUTION {
            Ok(PacketView::NameResolution)
        } else if tag == TAG_INTERFACE_STATISTICS {
            Ok(PacketView::IfaceStatistics)
        } else if tag == TAG_ENHANCED_PACKET {
            if body.len() < 28 {
                Err(ParseError::TruncatedInput)
            } else {
                Ok(
                    PacketView::EnhancedBlock {
                        iface_id: le_at(body, 8, 4) as u32,
                        timestamp: le_at(body, 12, 8) as u64,
                        cap_len: le_at(body, 20, 4) as u32,
                        orig_len: le_at(body, 24, 4) as u32,
                        content: body.subrange(28, body.len() as int),
                    },
                )
            }
        } else {
            Err(ParseError::UnknownBlockType)
        }
    }
}

/// Decodes one block body (tag first, trailing length field excluded).
pub fn parse_block(buf: &[u8]) -> (r: Result<Packet, ParseError>)
    ensures
        match r {
            Ok(p) => decode_spec(buf@) == Ok::<PacketView, ParseError>(p@),
            Err(e) => decode_spec(buf@) == Err::<PacketView, ParseError>(e),
        },
{
    if buf.len() < 4 {
        return Err(ParseError::TruncatedInput);
    }
    let type_id = read_u32_at(buf, 0);
    if type_id == TAG_SECTION_HEADER {
        Ok(Packet::Header)
    } else if type_id == TAG_INTERFACE_DESCRIPTION {
        if buf.len() < 12 {
            return Err(ParseError::TruncatedInput);
        }
        let link_type = read_u16_at(buf, 4);
        let snap_num = read_u32_at(buf, 8);
        let options = vstd::slice::slice_to_vec(
            vstd::slice::slice_subrange(buf, 12, buf.len()),
        );
        Ok(Packet::IfaceDescr { link_type, snap_num, options: HexData(options) })
    } else if type_id == TAG_PACKET {
        Ok(Packet::Packet)
    } else if type_id == TAG_SIMPLE_PACKET {
        Ok(Packet::SimplePacket)
    } else if type_id == TAG_NAME_RESOLUTION {
        Ok(Packet::NameResolution)
    } else if type_id == TAG_INTERFACE_STATISTICS {
        Ok(Packet::IfaceStatistics)
    } else if type_id == TAG_ENHANCED_PACKET {
        if buf.len() < 28 {
            return Err(ParseError::TruncatedInput);
        }
        let iface_id = read_u32_at(buf, 8);
        let timestamp = read_u64_at(buf, 12);
        let cap_len = read_u32_at(buf, 20);
        let orig_len = read_u32_at(buf, 24);
        let content = vstd::slice::slice_to_vec(
            vstd::slice::slice_subrange(buf, 28, buf.len()),
        );
        Ok(Packet::EnhancedBlock { iface_id, timestamp, orig_len, cap_len, content: HexData(content) })
    } else {
        Err(ParseError::UnknownBlockType)
    }
}

/// A declared block length rounded up to the next multiple of four.
pub open spec fn padded_len(len: int) -> int {
    (len + 3) / 4 * 4
}

/// The total length that the block at the start of `buf` declares.
pub open spec fn declared_len(buf: Seq<u8>) -> nat {
    le_at(buf, 4, 4)
}

/// Puts `prefix` before the records of a successful decode; an error stays.
pub open spec fn prepend(
    prefix: Seq<PacketView>,
    rest: Result<Seq<PacketView>, ParseError>,
) -> Result<Seq<PacketView>, ParseError> {
    match rest {
        Ok(rs) => Ok(prefix + rs),
        Err(e) => Err(e),
    }
}

/// The records that a buffer of back-to-back blocks decodes to, in file
/// order, or the first failure met. Each block spans its declared length
/// padded to a multiple of four; the last four bytes of that span are the
/// trailing length field and are not part of the body.
pub open spec fn parse_spec(buf: Seq<u8>) -> Result<Seq<PacketView>, ParseError>
    decreases buf.len(),
{
    if buf.len() == 0 {
        Ok(Seq::empty())
    } else if buf.len() < 8 {
        Err(ParseError::TruncatedInput)
    } else {
        let span = padded_len(declared_len(buf) as int);
        if span < 8 {
            Err(ParseError::DegenerateLength)
        } else if span > buf.len() {
            Err(ParseError::TruncatedInput)
        } else {
            match decode_spec(buf.subrange(0, span - 4)) {
                Err(e) => Err(e),
                Ok(rec) => prepend(seq![rec], parse_spec(buf.subrange(span, buf.len() as int))),
            }
        }
    }
}

/// Prepending two prefixes in turn prepends their concatenation.
proof fn lemma_prepend_twice(
    a: Seq<PacketView>,
    b: Seq<PacketView>,
    rest: Result<Seq<PacketView>, ParseError>,
)
    ensures
        prepend(a, prepend(b, rest)) == prepend(a + b, rest),
{
    if let Ok(rs) = rest {
        assert(a + (b + rs) =~= (a + b) + rs);
    }
}

/// The span of the block that starts at `begin`: its declared length padded
/// to a multiple of four, once it is known to fit in what is left of `buf`.
fn block_span(buf: &[u8], begin: usize) -> (r: Result<usize, ParseError>)
    requires
        begin < buf@.len(),
    ensures
        ({
            let rest = buf@.subrange(begin as int, buf@.len() as int);
            let span = padded_len(declared_len(rest) as int);
            match r {
                Ok(n) => rest.len() >= 8 && 8 <= span <= rest.len() && n == span,
                Err(e) => if rest.len() < 8 {
                    e == ParseError::TruncatedInput
                } else if span < 8 {
                    e == ParseError::DegenerateLength
                } else {
                    span > rest.len() && e == ParseError::TruncatedInput
                },
            }
        }),
{
    let left = buf.len() - begin;
    if left < 8 {
        return Err(ParseError::TruncatedInput);
    }
    let len = read_u32_at(buf, begin + 4);
    proof {
        let rest = buf@.subrange(begin as int, buf@.len() as int);
        assert(rest.subrange(4, 8) =~= buf@.subrange(begin + 4, begin + 8));
    }
    let pad: u64 = match len % 4 {
        0 => 0,
        1 => 3,
        2 => 2,
        _ => 1,
    };
    let span: u64 = len as u64 + pad;
    if span < MIN_BLOCK_LEN {
        return Err(ParseError::DegenerateLength);
    }
    if span > left as u64 {
        return Err(ParseError::TruncatedInput);
    }
    Ok(span as usize)
}

/// Decodes a whole capture buffer into its records, in file order. Fails
/// on the first block that is truncated, has a degenerate length or an
/// unknown type tag; an empty buffer holds no records. The trailing copy of
/// each block's length is skipped, not compared with the leading one.
pub fn parse_file(buf: &[u8]) -> (r: Result<Vec<Packet>, ParseError>)
    ensures
        match r {
            Ok(v) => parse_spec(buf@) == Ok::<Seq<PacketView>, ParseError>(
                v@.map_values(|p: Packet| p@),
            ),
            Err(e) => parse_spec(buf@) == Err::<Seq<PacketView>, ParseError>(e),
        },
{
    let mut packets: Vec<Packet> = Vec::new();
    let mut begin: usize = 0;
    assert(buf@.subrange(0, buf@.len() as int) =~= buf@);
    while begin < buf.len()
        invariant
            begin <= buf@.len(),
            parse_spec(buf@) == prepend(
                packets@.map_values(|p: Packet| p@),
                parse_spec(buf@.subrange(begin as int, buf@.len() as int)),
            ),
        decreases buf@.len() - begin,
    {
        let ghost rest = buf@.subrange(begin as int, buf@.len() as int);
        let span = match block_span(buf, begin) {
            Ok(n) => n,
            Err(e) => return Err(e),
        };
        let body = vstd::slice::slice_subrange(buf, begin, begin + span - 4);
        assert(body@ =~= rest.subrange(0, span - 4));
        let packet = match parse_block(body) {
            Ok(p) => p,
            Err(e) => return Err(e),
        };
        proof {
            assert(rest.subrange(span as int, rest.len() as int) =~= buf@.subrange(
                begin + span,
                buf@.len() as int,
            ));
        }
        let ghost before = packets@.map_values(|p: Packet| p@);
        packets.push(packet);
        assert(packets@.map_values(|p: Packet| p@) =~= before + seq![packet@]);
        proof {
            let later = parse_spec(buf@.subrange(begin + span, buf@.len() as int));
            assert(parse_spec(rest) == prepend(seq![packet@], later));
            lemma_prepend_twice(before, seq![packet@], later);
        }
        begin = begin + span;
    }
    assert(buf@.subrange(begin as int, buf@.len() as int) =~= Seq::<u8>::empty());
    assert(packets@.map_values(|p: Packet| p@) + Seq::<PacketView>::empty() =~= packets@.map_values(
        |p: Packet| p@,
    ));
    Ok(packets)
}

/// The span that parsing consumes for a block is its declared length `L`
/// when `L` is a multiple of four, and `L + (4 - L % 4)` otherwise; the
/// next block starts right after that span.
pub proof fn lemma_padding_law(buf: Seq<u8>)
    requires
        buf.len() >= 8,
        8 <= padded_len(declared_len(buf) as int) <= buf.len(),
        decode_spec(buf.subrange(0, padded_len(declared_len(buf) as int) - 4)) is Ok,
    ensures
        ({
            let l = declared_len(buf) as int;
            let span = padded_len(l);
            &&& span == if l % 4 == 0 {
                l
            } else {
                l + (4 - l % 4)
            }
            &&& parse_spec(buf) == prepend(
                seq![decode_spec(buf.subrange(0, span - 4))->Ok_0],
                parse_spec(buf.subrange(span, buf.len() as int)),
            )
        }),
{
}

/// Decoding two buffers laid end to end gives the records of the first,
/// in order, followed by those of the second, whenever the first decodes
/// on its own.
pub proof fn lemma_parse_concat(a: Seq<u8>, b: Seq<u8>)
    requires
        parse_spec(a) is Ok,
    ensures
        parse_spec(a + b) == prepend(parse_spec(a)->Ok_0, parse_spec(b)),
    decreases a.len(),
{
    let ab = a + b;
    if a.len() == 0 {
        assert(ab =~= b);
        if let Ok(rs) = parse_spec(b) {
            assert(Seq::<PacketView>::empty() + rs =~= rs);
        }
    } else {
        let span = padded_len(declared_len(a) as int);
        assert(ab.subrange(4, 8) =~= a.subrange(4, 8));
        assert(ab.subrange(0, span - 4) =~= a.subrange(0, span - 4));
        let rec = decode_spec(a.subrange(0, span - 4))->Ok_0;
        let a2 = a.subrange(span, a.len() as int);
        assert(ab.subrange(span, ab.len() as int) =~= a2 + b);
        lemma_parse_concat(a2, b);
        lemma_prepend_twice(seq![rec], parse_spec(a2)->Ok_0, parse_spec(b));
    }
}

} // verus!
