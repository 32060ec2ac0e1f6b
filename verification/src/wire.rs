//! The frame of a message on the wire.
//!
//! A frame is what every node must be able to read of a message in order to
//! route it: its source, its destination, the tag of its variant, the bytes
//! of its content and its signatures. The content and the signatures are
//! opaque to the frame.
//!
//! The layout is canonical: a frame has exactly one encoding, and only that
//! encoding decodes. All numbers are little-endian.
//!
//! | part        | bytes                                                        |
//! |-------------|--------------------------------------------------------------|
//! | name        | 32: the name as a number of 256 bits                         |
//! | prefix      | 2 for the number of bits, then its smallest name             |
//! | source      | 1 for the kind, then a name (0) or a prefix (1)              |
//! | destination | 1 for the kind, then a name (0, 1), a prefix (2) or nothing (3) |
//! | tag         | 1                                                            |
//! | content     | 8 for the length, then the bytes                             |
//! | signatures  | 8 for their number, then each like the content               |

use vstd::prelude::*;
use vstd::bytes::{
    lemma_auto_spec_u128_to_from_le_bytes,
    lemma_auto_spec_u16_to_from_le_bytes,
    lemma_auto_spec_u64_to_from_le_bytes,
    spec_u128_from_le_bytes,
    spec_u128_to_le_bytes,
    spec_u16_from_le_bytes,
    spec_u16_to_le_bytes,
    spec_u64_from_le_bytes,
    spec_u64_to_le_bytes,
    u128_from_le_bytes,
    u128_to_le_bytes,
    u16_from_le_bytes,
    u16_to_le_bytes,
    u64_from_le_bytes,
    u64_to_le_bytes,
};
use vstd::slice::slice_subrange;
use crate::crypto::Signature;
use crate::location::{DstLocation, SrcLocation};
use crate::messages::Variant;
use crate::prefix::{is_canonical, Prefix};
use crate::xor_name::XorName;

verus! {

/// The number of variants of a message. Their tags are the numbers below it.
pub const VARIANT_COUNT: u8 = 14;

impl Variant {
    /// The tag of the variant on the wire.
    pub open spec fn tag_spec(self) -> u8 {
        match self {
            Variant::NeighbourInfo(_) => 0,
            Variant::UserMessage(_) => 1,
            Variant::NodeApproval(_) => 2,
            Variant::AckMessage { .. } => 3,
            Variant::GenesisUpdate(_) => 4,
            Variant::Relocate(_) => 5,
            Variant::MessageSignature(_) => 6,
            Variant::BootstrapRequest(_) => 7,
            Variant::BootstrapResponse(_) => 8,
            Variant::JoinRequest(_) => 9,
            Variant::ConnectionResponse => 10,
            Variant::MemberKnowledge { .. } => 11,
            Variant::ParsecRequest(..) => 12,
            Variant::ParsecResponse(..) => 13,
        }
    }

    /// Returns the tag of the variant on the wire.
    pub fn tag(&self) -> (tag: u8)
        ensures
            tag == self.tag_spec(),
            tag < VARIANT_COUNT,
    {
        match self {
            Variant::NeighbourInfo(_) => 0,
            Variant::UserMessage(_) => 1,
            Variant::NodeApproval(_) => 2,
            Variant::AckMessage { .. } => 3,
            Variant::GenesisUpdate(_) => 4,
            Variant::Relocate(_) => 5,
            Variant::MessageSignature(_) => 6,
            Variant::BootstrapRequest(_) => 7,
            Variant::BootstrapResponse(_) => 8,
            Variant::JoinRequest(_) => 9,
            Variant::ConnectionResponse => 10,
            Variant::MemberKnowledge { .. } => 11,
            Variant::ParsecRequest(..) => 12,
            Variant::ParsecResponse(..) => 13,
        }
    }
}

/// The model of a frame.
pub struct FrameModel {
    pub src: SrcLocation,
    pub dst: DstLocation,
    pub tag: u8,
    pub payload: Seq<u8>,
    pub signatures: Seq<Seq<u8>>,
}

/// The frame of a message.
#[derive(Debug, PartialEq, Eq)]
pub struct Frame {
    pub src: SrcLocation,
    pub dst: DstLocation,
    pub tag: u8,
    pub payload: Vec<u8>,
    pub signatures: Vec<Signature>,
}

/// The bytes of each signature.
pub open spec fn signature_bytes(signatures: Seq<Signature>) -> Seq<Seq<u8>> {
    Seq::new(signatures.len(), |i: int| signatures[i].bytes@)
}

impl View for Frame {
    type V = FrameModel;

    open spec fn view(&self) -> FrameModel {
        FrameModel {
            src: self.src,
            dst: self.dst,
            tag: self.tag,
            payload: self.payload@,
            signatures: signature_bytes(self.signatures@),
        }
    }
}

/// The source can be put on the wire: a prefix in it is well formed.
pub open spec fn src_valid(src: SrcLocation) -> bool {
    src matches SrcLocation::Section(prefix) ==> prefix.wf()
}

/// The destination can be put on the wire: a prefix in it is well formed.
pub open spec fn dst_valid(dst: DstLocation) -> bool {
    dst matches DstLocation::PrefixSection(prefix) ==> prefix.wf()
}

impl FrameModel {
    /// The frame can be put on the wire: its prefixes are well formed, its
    /// tag is that of a variant, and the lengths in it fit in 64 bits.
    pub open spec fn valid(self) -> bool {
        &&& src_valid(self.src)
        &&& dst_valid(self.dst)
        &&& self.tag < VARIANT_COUNT
        &&& self.payload.len() <= u64::MAX
        &&& self.signatures.len() <= u64::MAX
        &&& forall|i: int| 0 <= i < self.signatures.len() ==> (#[trigger] self.signatures[i]).len() <= u64::MAX
    }
}

/// The bytes of a name.
pub open spec fn name_bytes(name: XorName) -> Seq<u8> {
    spec_u128_to_le_bytes(name.lo) + spec_u128_to_le_bytes(name.hi)
}

/// The bytes of a prefix.
pub open spec fn prefix_bytes(prefix: Prefix) -> Seq<u8> {
    spec_u16_to_le_bytes(prefix@.len() as u16) + name_bytes(prefix.name_spec())
}

/// The bytes of a source.
pub open spec fn src_bytes(src: SrcLocation) -> Seq<u8> {
    match src {
        SrcLocation::Node(name) => seq![0u8] + name_bytes(name),
        SrcLocation::Section(prefix) => seq![1u8] + prefix_bytes(prefix),
    }
}

/// The bytes of a destination.
pub open spec fn dst_bytes(dst: DstLocation) -> Seq<u8> {
    match dst {
        DstLocation::Node(name) => seq![0u8] + name_bytes(name),
        DstLocation::Section(name) => seq![1u8] + name_bytes(name),
        DstLocation::PrefixSection(prefix) => seq![2u8] + prefix_bytes(prefix),
        DstLocation::Direct => seq![3u8],
    }
}

/// The bytes of a string of bytes: its length, then the string.
pub open spec fn blob_bytes(blob: Seq<u8>) -> Seq<u8> {
    spec_u64_to_le_bytes(blob.len() as u64) + blob
}

/// The bytes of strings of bytes, one after the other.
pub open spec fn blobs_bytes(blobs: Seq<Seq<u8>>) -> Seq<u8>
    decreases blobs.len(),
{
    if blobs.len() == 0 {
        Seq::empty()
    } else {
        blobs_bytes(blobs.drop_last()) + blob_bytes(blobs.last())
    }
}

/// The bytes of a frame.
pub open spec fn frame_bytes(frame: FrameModel) -> Seq<u8> {
    src_bytes(frame.src) + dst_bytes(frame.dst) + seq![frame.tag] + blob_bytes(frame.payload) + spec_u64_to_le_bytes(
        frame.signatures.len() as u64,
    ) + blobs_bytes(frame.signatures)
}

/// The name that the bytes from `at` on hold, and where it ends.
pub open spec fn parse_name(bytes: Seq<u8>, at: int) -> Option<(XorName, int)> {
    if 0 <= at && at + 32 <= bytes.len() {
        Some(
            (
                XorName {
                    hi: spec_u128_from_le_bytes(bytes.subrange(at + 16, at + 32)),
                    lo: spec_u128_from_le_bytes(bytes.subrange(at, at + 16)),
                },
                at + 32,
            ),
        )
    } else {
        None
    }
}

/// The prefix that the bytes from `at` on hold, and where it ends.
pub open spec fn parse_prefix(bytes: Seq<u8>, at: int) -> Option<(Prefix, int)> {
    if 0 <= at && at + 2 <= bytes.len() {
        match parse_name(bytes, at + 2) {
            Some((name, end)) => if is_canonical(spec_u16_from_le_bytes(bytes.subrange(at, at + 2)) as int, name) {
                Some((Prefix::from_parts(spec_u16_from_le_bytes(bytes.subrange(at, at + 2)), name), end))
            } else {
                None
            },
            None => None,
        }
    } else {
        None
    }
}

/// The source that the bytes from `at` on hold, and where it ends.
pub open spec fn parse_src(bytes: Seq<u8>, at: int) -> Option<(SrcLocation, int)> {
    if 0 <= at < bytes.len() {
        if bytes[at] == 0 {
            match parse_name(bytes, at + 1) {
                Some((name, end)) => Some((SrcLocation::Node(name), end)),
                None => None,
            }
        } else if bytes[at] == 1 {
            match parse_prefix(bytes, at + 1) {
                Some((prefix, end)) => Some((SrcLocation::Section(prefix), end)),
                None => None,
            }
        } else {
            None
        }
    } else {
        None
    }
}

/// The destination that the bytes from `at` on hold, and where it ends.
pub open spec fn parse_dst(bytes: Seq<u8>, at: int) -> Option<(DstLocation, int)> {
    if 0 <= at < bytes.len() {
        if bytes[at] == 0 {
            match parse_name(bytes, at + 1) {
                Some((name, end)) => Some((DstLocation::Node(name), end)),
                None => None,
            }
        } else if bytes[at] == 1 {
            match parse_name(bytes, at + 1) {
                Some((name, end)) => Some((DstLocation::Section(name), end)),
                None => None,
            }
        } else if bytes[at] == 2 {
            match parse_prefix(bytes, at + 1) {
                Some((prefix, end)) => Some((DstLocation::PrefixSection(prefix), end)),
                None => None,
            }
        } else if bytes[at] == 3 {
            Some((DstLocation::Direct, at + 1))
        } else {
            None
        }
    } else {
        None
    }
}

/// The number of 64 bits that the bytes from `at` on hold, and where it ends.
pub open spec fn parse_u64(bytes: Seq<u8>, at: int) -> Option<(u64, int)> {
    if 0 <= at && at + 8 <= bytes.len() {
        Some((spec_u64_from_le_bytes(bytes.subrange(at, at + 8)), at + 8))
    } else {
        None
    }
}

/// The string of bytes that the bytes from `at` on hold, and where it ends.
pub open spec fn parse_blob(bytes: Seq<u8>, at: int) -> Option<(Seq<u8>, int)> {
    match parse_u64(bytes, at) {
        Some((len, start)) => if start + len <= bytes.len() {
            Some((bytes.subrange(start, start + len), start + len))
        } else {
            None
        },
        None => None,
    }
}

/// The `count` strings of bytes that the bytes from `at` on hold, and where
/// the last of them ends.
pub open spec fn parse_blobs(bytes: Seq<u8>, at: int, count: nat) -> Option<(Seq<Seq<u8>>, int)>
    decreases count,
{
    if count == 0 {
        Some((Seq::empty(), at))
    } else {
        match parse_blobs(bytes, at, (count - 1) as nat) {
            Some((blobs, next)) => match parse_blob(bytes, next) {
                Some((blob, end)) => Some((blobs.push(blob), end)),
                None => None,
            },
            None => None,
        }
    }
}

/// The frame that the bytes hold, if they hold exactly one.
pub open spec fn parse_frame(bytes: Seq<u8>) -> Option<FrameModel> {
    match parse_src(bytes, 0) {
        Some((src, after_src)) => match parse_dst(bytes, after_src) {
            Some((dst, after_dst)) => if after_dst < bytes.len() && bytes[after_dst] < VARIANT_COUNT {
                match parse_blob(bytes, after_dst + 1) {
                    Some((payload, after_payload)) => match parse_u64(bytes, after_payload) {
                        Some((count, after_count)) => match parse_blobs(bytes, after_count, count as nat) {
                            Some((signatures, end)) => if end == bytes.len() {
                                Some(FrameModel { src, dst, tag: bytes[after_dst], payload, signatures })
                            } else {
                                None
                            },
                            None => None,
                        },
                        None => None,
                    },
                    None => None,
                }
            } else {
                None
            },
            None => None,
        },
        None => None,
    }
}

/// The bytes hold `part` from `at` on.
pub open spec fn holds_at(bytes: Seq<u8>, at: int, part: Seq<u8>) -> bool {
    0 <= at && at + part.len() <= bytes.len() && bytes.subrange(at, at + part.len()) == part
}

/// Bytes that hold two parts, one after the other, hold each of them.
pub proof fn lemma_holds_both(bytes: Seq<u8>, at: int, first: Seq<u8>, second: Seq<u8>)
    requires
        holds_at(bytes, at, first + second),
    ensures
        holds_at(bytes, at, first),
        holds_at(bytes, at + first.len(), second),
{
    let whole = first + second;
    assert(bytes.subrange(at, at + first.len()) =~= whole.subrange(0, first.len() as int));
    assert(whole.subrange(0, first.len() as int) =~= first);
    assert(bytes.subrange(at + first.len(), at + first.len() + second.len()) =~= whole.subrange(
        first.len() as int,
        whole.len() as int,
    ));
    assert(whole.subrange(first.len() as int, whole.len() as int) =~= second);
}

pub proof fn lemma_parse_name(bytes: Seq<u8>, at: int, name: XorName)
    requires
        holds_at(bytes, at, name_bytes(name)),
    ensures
        name_bytes(name).len() == 32,
        parse_name(bytes, at) == Some((name, at + 32)),
{
    lemma_auto_spec_u128_to_from_le_bytes();
    lemma_holds_both(bytes, at, spec_u128_to_le_bytes(name.lo), spec_u128_to_le_bytes(name.hi));
}

pub proof fn lemma_parse_prefix(bytes: Seq<u8>, at: int, prefix: Prefix)
    requires
        prefix.wf(),
        holds_at(bytes, at, prefix_bytes(prefix)),
    ensures
        prefix_bytes(prefix).len() == 34,
        parse_prefix(bytes, at) == Some((prefix, at + 34)),
{
    lemma_auto_spec_u16_to_from_le_bytes();
    prefix.lemma_from_own_parts();
    lemma_holds_both(bytes, at, spec_u16_to_le_bytes(prefix@.len() as u16), name_bytes(prefix.name_spec()));
    lemma_parse_name(bytes, at + 2, prefix.name_spec());
}

proof fn lemma_parse_src(bytes: Seq<u8>, at: int, src: SrcLocation)
    requires
        src_valid(src),
        holds_at(bytes, at, src_bytes(src)),
    ensures
        parse_src(bytes, at) == Some((src, at + src_bytes(src).len())),
{
    match src {
        SrcLocation::Node(name) => {
            lemma_holds_both(bytes, at, seq![0u8], name_bytes(name));
            assert(bytes[at] == bytes.subrange(at, at + 1)[0]);
            lemma_parse_name(bytes, at + 1, name);
        },
        SrcLocation::Section(prefix) => {
            lemma_holds_both(bytes, at, seq![1u8], prefix_bytes(prefix));
            assert(bytes[at] == bytes.subrange(at, at + 1)[0]);
            lemma_parse_prefix(bytes, at + 1, prefix);
        },
    }
}

proof fn lemma_parse_dst(bytes: Seq<u8>, at: int, dst: DstLocation)
    requires
        dst_valid(dst),
        holds_at(bytes, at, dst_bytes(dst)),
    ensures
        parse_dst(bytes, at) == Some((dst, at + dst_bytes(dst).len())),
{
    match dst {
        DstLocation::Node(name) => {
            lemma_holds_both(bytes, at, seq![0u8], name_bytes(name));
            assert(bytes[at] == bytes.subrange(at, at + 1)[0]);
            lemma_parse_name(bytes, at + 1, name);
        },
        DstLocation::Section(name) => {
            lemma_holds_both(bytes, at, seq![1u8], name_bytes(name));
            assert(bytes[at] == bytes.subrange(at, at + 1)[0]);
            lemma_parse_name(bytes, at + 1, name);
        },
        DstLocation::PrefixSection(prefix) => {
            lemma_holds_both(bytes, at, seq![2u8], prefix_bytes(prefix));
            assert(bytes[at] == bytes.subrange(at, at + 1)[0]);
            lemma_parse_prefix(bytes, at + 1, prefix);
        },
        DstLocation::Direct => {
            assert(bytes[at] == bytes.subrange(at, at + 1)[0]);
        },
    }
}

pub proof fn lemma_parse_u64(bytes: Seq<u8>, at: int, x: u64)
    requires
        holds_at(bytes, at, spec_u64_to_le_bytes(x)),
    ensures
        spec_u64_to_le_bytes(x).len() == 8,
        parse_u64(bytes, at) == Some((x, at + 8)),
{
    lemma_auto_spec_u64_to_from_le_bytes();
}

pub proof fn lemma_parse_blob(bytes: Seq<u8>, at: int, blob: Seq<u8>)
    requires
        blob.len() <= u64::MAX,
        holds_at(bytes, at, blob_bytes(blob)),
    ensures
        blob_bytes(blob).len() == 8 + blob.len(),
        parse_blob(bytes, at) == Some((blob, at + 8 + blob.len())),
{
    lemma_auto_spec_u64_to_from_le_bytes();
    lemma_holds_both(bytes, at, spec_u64_to_le_bytes(blob.len() as u64), blob);
    lemma_parse_u64(bytes, at, blob.len() as u64);
}

proof fn lemma_parse_blobs(bytes: Seq<u8>, at: int, blobs: Seq<Seq<u8>>)
    requires
        forall|i: int| 0 <= i < blobs.len() ==> (#[trigger] blobs[i]).len() <= u64::MAX,
        holds_at(bytes, at, blobs_bytes(blobs)),
    ensures
        parse_blobs(bytes, at, blobs.len()) == Some((blobs, at + blobs_bytes(blobs).len())),
    decreases blobs.len(),
{
    if blobs.len() > 0 {
        let head = blobs.drop_last();
        lemma_holds_both(bytes, at, blobs_bytes(head), blob_bytes(blobs.last()));
        assert forall|i: int| 0 <= i < head.len() implies (#[trigger] head[i]).len() <= u64::MAX by {
            assert(head[i] == blobs[i]);
        }
        lemma_parse_blobs(bytes, at, head);
        lemma_parse_blob(bytes, at + blobs_bytes(head).len(), blobs.last());
    }
}

/// Decoding undoes encoding: the bytes of a frame that can be put on the
/// wire hold that frame and no other.
pub proof fn lemma_frame_round_trip(frame: FrameModel)
    requires
        frame.valid(),
    ensures
        parse_frame(frame_bytes(frame)) == Some(frame),
{
    lemma_auto_spec_u64_to_from_le_bytes();
    let bytes = frame_bytes(frame);
    let src = src_bytes(frame.src);
    let dst = dst_bytes(frame.dst);
    let tag = seq![frame.tag];
    let payload = blob_bytes(frame.payload);
    let count = spec_u64_to_le_bytes(frame.signatures.len() as u64);
    let signatures = blobs_bytes(frame.signatures);
    assert(bytes.subrange(0, bytes.len() as int) =~= bytes);
    assert(bytes =~= src + (dst + (tag + (payload + (count + signatures)))));
    lemma_holds_both(bytes, 0, src, dst + (tag + (payload + (count + signatures))));
    lemma_parse_src(bytes, 0, frame.src);
    let after_src = src.len() as int;
    lemma_holds_both(bytes, after_src, dst, tag + (payload + (count + signatures)));
    lemma_parse_dst(bytes, after_src, frame.dst);
    let after_dst = after_src + dst.len();
    lemma_holds_both(bytes, after_dst, tag, payload + (count + signatures));
    lemma_holds_both(bytes, after_dst + 1, payload, count + signatures);
    lemma_parse_blob(bytes, after_dst + 1, frame.payload);
    let after_payload = after_dst + 1 + payload.len();
    lemma_holds_both(bytes, after_payload, count, signatures);
    lemma_parse_u64(bytes, after_payload, frame.signatures.len() as u64);
    lemma_parse_blobs(bytes, after_payload + 8, frame.signatures);
}

/// What was read is what the bytes hold, and it ends where they say.
pub open spec fn read_as<T>(read: Option<(T, usize)>, held: Option<(T, int)>) -> bool {
    match (read, held) {
        (Some((value, end)), Some((held_value, held_end))) => value == held_value && end == held_end,
        (None, None) => true,
        _ => false,
    }
}

/// Adds `bytes` to the end of `out`.
pub(crate) fn put_bytes(out: &mut Vec<u8>, bytes: &Vec<u8>)
    ensures
        final(out)@ == old(out)@ + bytes@,
{
    let mut i: usize = 0;
    while i < bytes.len()
        invariant
            i <= bytes@.len(),
            out@ == old(out)@ + bytes@.take(i as int),
        decreases bytes@.len() - i,
    {
        out.push(bytes[i]);
        i = i + 1;
    }
}

/// Adds the bytes of a name to the end of `out`.
pub(crate) fn put_name(out: &mut Vec<u8>, name: &XorName)
    ensures
        final(out)@ == old(out)@ + name_bytes(*name),
{
    let mut lo = u128_to_le_bytes(name.lo);
    let mut hi = u128_to_le_bytes(name.hi);
    out.append(&mut lo);
    out.append(&mut hi);
}

/// Adds the bytes of a prefix to the end of `out`.
pub(crate) fn put_prefix(out: &mut Vec<u8>, prefix: &Prefix)
    ensures
        final(out)@ == old(out)@ + prefix_bytes(*prefix),
        prefix.wf(),
{
    let mut count = u16_to_le_bytes(prefix.bit_count() as u16);
    out.append(&mut count);
    put_name(out, &prefix.name());
}

/// Adds the bytes of a string of bytes to the end of `out`.
pub(crate) fn put_blob(out: &mut Vec<u8>, blob: &Vec<u8>)
    ensures
        final(out)@ == old(out)@ + blob_bytes(blob@),
{
    let mut len = u64_to_le_bytes(blob.len() as u64);
    out.append(&mut len);
    put_bytes(out, blob);
}

impl Frame {
    /// Makes the frame of a message with the given source, destination and
    /// signatures, whose content is `variant` and is encoded as `payload`.
    pub fn new(src: SrcLocation, dst: DstLocation, variant: &Variant, payload: Vec<u8>, signatures: Vec<Signature>) -> (frame:
        Frame)
        ensures
            frame@ == (FrameModel {
                src,
                dst,
                tag: variant.tag_spec(),
                payload: payload@,
                signatures: signature_bytes(signatures@),
            }),
            frame.signatures == signatures,
            frame.payload == payload,
    {
        Frame { src, dst, tag: variant.tag(), payload, signatures }
    }

    /// Returns whether the frame can be put on the wire, so that decoding
    /// its bytes gives the frame back: whether its tag is that of a variant.
    pub fn can_be_sent(&self) -> (b: bool)
        ensures
            b == self@.valid(),
            b == (self.tag < VARIANT_COUNT),
    {
        match &self.src {
            SrcLocation::Section(prefix) => {
                let _ = prefix.bit_count();
            },
            _ => {},
        }
        match &self.dst {
            DstLocation::PrefixSection(prefix) => {
                let _ = prefix.bit_count();
            },
            _ => {},
        }
        proof {
            assert forall|i: int| 0 <= i < self@.signatures.len() implies (#[trigger] self@.signatures[i]).len()
                <= u64::MAX by {
                assert(self.signatures@[i].bytes.len() <= usize::MAX);
            }
            assert(self.payload.len() <= usize::MAX);
            assert(self.signatures.len() <= usize::MAX);
        }
        self.tag < VARIANT_COUNT
    }

    /// Returns the frame in its form on the wire. The bytes of a frame
    /// whose tag is that of a variant decode to the frame.
    pub fn encode(&self) -> (bytes: Vec<u8>)
        ensures
            bytes@ == frame_bytes(self@),
            self.tag < VARIANT_COUNT ==> self@.valid() && parse_frame(bytes@) == Some(self@),
    {
        encode_parts(&self.src, &self.dst, self.tag, &self.payload, &self.signatures)
    }

    /// Returns the frame that the bytes hold, if they hold exactly one.
    #[verifier::loop_isolation(false)]
    pub fn decode(bytes: &[u8]) -> (r: Option<Frame>)
        ensures
            match parse_frame(bytes@) {
                Some(frame) => r matches Some(decoded) && decoded@ == frame,
                None => r is None,
            },
    {
        let (src, after_src) = match read_src(bytes, 0) {
            Some(read) => read,
            None => {
                return None;
            },
        };
        let (dst, after_dst) = match read_dst(bytes, after_src) {
            Some(read) => read,
            None => {
                return None;
            },
        };
        if after_dst >= bytes.len() || bytes[after_dst] >= VARIANT_COUNT {
            return None;
        }
        let tag = bytes[after_dst];
        let (payload, after_payload) = match read_blob(bytes, after_dst + 1) {
            Some(read) => read,
            None => {
                return None;
            },
        };
        let (count, after_count) = match read_u64(bytes, after_payload) {
            Some(read) => read,
            None => {
                return None;
            },
        };
        let mut signatures: Vec<Signature> = Vec::new();
        let mut at: usize = after_count;
        let mut i: u64 = 0;
        while i < count
            invariant
                i <= count,
                at <= bytes@.len(),
                parse_blobs(bytes@, after_count as int, i as nat) == Some((signature_bytes(signatures@), at as int)),
            decreases count - i,
        {
            match read_blob(bytes, at) {
                Some((blob, end)) => {
                    signatures.push(Signature { bytes: blob });
                    at = end;
                },
                None => {
                    proof {
                        lemma_parse_blobs_fails_on(bytes@, after_count as int, (i + 1) as nat, count as nat);
                    }
                    return None;
                },
            }
            i = i + 1;
        }
        if at != bytes.len() {
            return None;
        }
        Some(Frame { src, dst, tag, payload, signatures })
    }
}

/// Returns the form on the wire of the frame with these parts.
pub fn encode_parts(src: &SrcLocation, dst: &DstLocation, tag: u8, payload: &Vec<u8>, signatures: &Vec<Signature>) -> (bytes:
    Vec<u8>)
    ensures
        bytes@ == frame_bytes(
            FrameModel { src: *src, dst: *dst, tag, payload: payload@, signatures: signature_bytes(signatures@) },
        ),
        tag < VARIANT_COUNT ==> (FrameModel {
            src: *src,
            dst: *dst,
            tag,
            payload: payload@,
            signatures: signature_bytes(signatures@),
        }).valid() && parse_frame(bytes@) == Some(
            FrameModel { src: *src, dst: *dst, tag, payload: payload@, signatures: signature_bytes(signatures@) },
        ),
{
    let mut out: Vec<u8> = Vec::new();
    match src {
        SrcLocation::Node(name) => {
            out.push(0);
            put_name(&mut out, name);
        },
        SrcLocation::Section(prefix) => {
            out.push(1);
            put_prefix(&mut out, prefix);
        },
    }
    match dst {
        DstLocation::Node(name) => {
            out.push(0);
            put_name(&mut out, name);
        },
        DstLocation::Section(name) => {
            out.push(1);
            put_name(&mut out, name);
        },
        DstLocation::PrefixSection(prefix) => {
            out.push(2);
            put_prefix(&mut out, prefix);
        },
        DstLocation::Direct => {
            out.push(3);
        },
    }
    out.push(tag);
    put_blob(&mut out, payload);
    let mut count = u64_to_le_bytes(signatures.len() as u64);
    out.append(&mut count);
    let ghost head = out@;
    let ghost blobs = signature_bytes(signatures@);
    assert(head =~= src_bytes(*src) + dst_bytes(*dst) + seq![tag] + blob_bytes(payload@)
        + spec_u64_to_le_bytes(signatures@.len() as u64));
    let mut i: usize = 0;
    while i < signatures.len()
        invariant
            i <= signatures@.len(),
            blobs == signature_bytes(signatures@),
            out@ == head + blobs_bytes(blobs.take(i as int)),
        decreases signatures@.len() - i,
    {
        proof {
            assert(blobs.take(i + 1).drop_last() =~= blobs.take(i as int));
        }
        put_blob(&mut out, &signatures[i].bytes);
        i = i + 1;
    }
    assert(blobs.take(blobs.len() as int) =~= blobs);
    proof {
        let frame = FrameModel { src: *src, dst: *dst, tag, payload: payload@, signatures: blobs };
        if tag < VARIANT_COUNT {
            assert forall|k: int| 0 <= k < blobs.len() implies (#[trigger] blobs[k]).len() <= u64::MAX by {
                assert(signatures@[k].bytes.len() <= usize::MAX);
            }
            assert(payload.len() <= usize::MAX);
            lemma_frame_round_trip(frame);
        }
    }
    out
}

/// Where the first `n` strings cannot be read, no more than `n` can.
proof fn lemma_parse_blobs_fails_on(bytes: Seq<u8>, at: int, n: nat, count: nat)
    requires
        n <= count,
        parse_blobs(bytes, at, n) is None,
    ensures
        parse_blobs(bytes, at, count) is None,
    decreases count,
{
    if n < count {
        lemma_parse_blobs_fails_on(bytes, at, n, (count - 1) as nat);
    }
}

/// Reads a number of 64 bits at `at`.
pub(crate) fn read_u64(bytes: &[u8], at: usize) -> (r: Option<(u64, usize)>)
    ensures
        read_as(r, parse_u64(bytes@, at as int)),
        r matches Some((_, end)) ==> end <= bytes@.len(),
{
    if bytes.len() < 8 || at > bytes.len() - 8 {
        return None;
    }
    Some((u64_from_le_bytes(slice_subrange(bytes, at, at + 8)), at + 8))
}

/// Reads a name at `at`.
pub(crate) fn read_name(bytes: &[u8], at: usize) -> (r: Option<(XorName, usize)>)
    ensures
        read_as(r, parse_name(bytes@, at as int)),
        r matches Some((_, end)) ==> end <= bytes@.len(),
{
    if bytes.len() < 32 || at > bytes.len() - 32 {
        return None;
    }
    let lo = u128_from_le_bytes(slice_subrange(bytes, at, at + 16));
    let hi = u128_from_le_bytes(slice_subrange(bytes, at + 16, at + 32));
    Some((XorName { hi, lo }, at + 32))
}

/// Reads a prefix at `at`.
pub(crate) fn read_prefix(bytes: &[u8], at: usize) -> (r: Option<(Prefix, usize)>)
    ensures
        read_as(r, parse_prefix(bytes@, at as int)),
        r matches Some((_, end)) ==> end <= bytes@.len(),
{
    if bytes.len() < 2 || at > bytes.len() - 2 {
        return None;
    }
    let count = u16_from_le_bytes(slice_subrange(bytes, at, at + 2));
    match read_name(bytes, at + 2) {
        Some((name, end)) => match Prefix::from_canonical(count, name) {
            Some(prefix) => Some((prefix, end)),
            None => None,
        },
        None => None,
    }
}

/// Reads a source at `at`.
fn read_src(bytes: &[u8], at: usize) -> (r: Option<(SrcLocation, usize)>)
    ensures
        read_as(r, parse_src(bytes@, at as int)),
        r matches Some((_, end)) ==> end <= bytes@.len(),
{
    if at >= bytes.len() {
        return None;
    }
    let kind = bytes[at];
    if kind == 0 {
        match read_name(bytes, at + 1) {
            Some((name, end)) => Some((SrcLocation::Node(name), end)),
            None => None,
        }
    } else if kind == 1 {
        match read_prefix(bytes, at + 1) {
            Some((prefix, end)) => Some((SrcLocation::Section(prefix), end)),
            None => None,
        }
    } else {
        None
    }
}

/// Reads a destination at `at`.
fn read_dst(bytes: &[u8], at: usize) -> (r: Option<(DstLocation, usize)>)
    ensures
        read_as(r, parse_dst(bytes@, at as int)),
        r matches Some((_, end)) ==> end <= bytes@.len(),
{
    if at >= bytes.len() {
        return None;
    }
    let kind = bytes[at];
    if kind == 0 {
        match read_name(bytes, at + 1) {
            Some((name, end)) => Some((DstLocation::Node(name), end)),
            None => None,
        }
    } else if kind == 1 {
        match read_name(bytes, at + 1) {
            Some((name, end)) => Some((DstLocation::Section(name), end)),
            None => None,
        }
    } else if kind == 2 {
        match read_prefix(bytes, at + 1) {
            Some((prefix, end)) => Some((DstLocation::PrefixSection(prefix), end)),
            None => None,
        }
    } else if kind == 3 {
        Some((DstLocation::Direct, at + 1))
    } else {
        None
    }
}

/// Reads a string of bytes at `at`.
pub(crate) fn read_blob(bytes: &[u8], at: usize) -> (r: Option<(Vec<u8>, usize)>)
    ensures
        match (r, parse_blob(bytes@, at as int)) {
            (Some((blob, end)), Some((held, held_end))) => blob@ == held && end == held_end && end <= bytes@.len(),
            (None, None) => true,
            _ => false,
        },
{
    let (len, start) = match read_u64(bytes, at) {
        Some(read) => read,
        None => {
            return None;
        },
    };
    if len > (bytes.len() - start) as u64 {
        return None;
    }
    let end: usize = start + len as usize;
    Some((copy_of(bytes, start, end), end))
}

/// Returns a copy of the bytes from `start` to `end`.
pub(crate) fn copy_of(bytes: &[u8], start: usize, end: usize) -> (copy: Vec<u8>)
    requires
        start <= end <= bytes@.len(),
    ensures
        copy@ == bytes@.subrange(start as int, end as int),
{
    let mut copy: Vec<u8> = Vec::new();
    let mut i: usize = start;
    while i < end
        invariant
            start <= i <= end <= bytes@.len(),
            copy@ == bytes@.subrange(start as int, i as int),
        decreases end - i,
    {
        copy.push(bytes[i]);
        i = i + 1;
    }
    copy
}

} // verus!
