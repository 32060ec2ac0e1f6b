use routing::chain::EldersInfo;
use routing::crypto::Signature;
use routing::location::{DstLocation, SrcLocation};
use routing::messages::{BootstrapResponse, JoinRequest, Variant};
use routing::prefix::Prefix;
use routing::relocation::RelocateDetails;
use routing::id::{PublicId, PublicKey};
use routing::wire::{Frame, VARIANT_COUNT};
use routing::xor_name::XorName;

fn prefix(bits: &str) -> Prefix {
    let mut p = Prefix::default();
    for c in bits.chars() {
        p = p.pushed(c == '1');
    }
    p
}

fn name() -> XorName {
    XorName { hi: 0x0102_0304_0506_0708_090a_0b0c_0d0e_0f10, lo: 0x1112_1314_1516_1718_191a_1b1c_1d1e_1f20 }
}

fn frame(src: SrcLocation, dst: DstLocation) -> Frame {
    Frame {
        src,
        dst,
        tag: 1,
        payload: vec![0xaa, 0xbb, 0xcc],
        signatures: vec![Signature { bytes: vec![1, 2] }, Signature { bytes: vec![] }, Signature { bytes: vec![3] }],
    }
}

#[test]
fn frames_come_back_from_their_bytes() {
    let sources = [SrcLocation::Node(name()), SrcLocation::Section(prefix("")), SrcLocation::Section(prefix("10110"))];
    let destinations = [
        DstLocation::Node(name()),
        DstLocation::Section(XorName { hi: 0, lo: 0 }),
        DstLocation::PrefixSection(prefix("0")),
        DstLocation::PrefixSection(Prefix::new(256, name())),
        DstLocation::Direct,
    ];
    for src in sources {
        for dst in destinations {
            let sent = frame(src, dst);
            assert!(sent.can_be_sent());
            assert_eq!(Frame::decode(&sent.encode()), Some(sent));
        }
    }
    let bare = Frame { src: SrcLocation::Node(name()), dst: DstLocation::Direct, tag: 0, payload: vec![], signatures: vec![] };
    assert_eq!(Frame::decode(&bare.encode()), Some(bare));
}

#[test]
fn the_layout_is_little_endian() {
    let sent = Frame {
        src: SrcLocation::Section(prefix("101")),
        dst: DstLocation::Node(name()),
        tag: 7,
        payload: vec![0xaa, 0xbb],
        signatures: vec![Signature { bytes: vec![9] }],
    };
    let mut expected: Vec<u8> = Vec::new();
    // The source: a section, the 3 bits of its prefix, and its smallest name, whose top byte comes last.
    expected.push(1);
    expected.extend([3, 0]);
    expected.extend([0u8; 31]);
    expected.push(0b1010_0000);
    // The destination: a node and its name.
    expected.push(0);
    expected.extend((0x11..=0x20u8).rev());
    expected.extend((0x01..=0x10u8).rev());
    // The tag, the content and the signatures.
    expected.push(7);
    expected.extend([2, 0, 0, 0, 0, 0, 0, 0, 0xaa, 0xbb]);
    expected.extend([1, 0, 0, 0, 0, 0, 0, 0]);
    expected.extend([1, 0, 0, 0, 0, 0, 0, 0, 9]);
    assert_eq!(sent.encode(), expected);
    assert_eq!(Frame::decode(&expected), Some(sent));
}

#[test]
fn only_whole_frames_decode() {
    let bytes = frame(SrcLocation::Section(prefix("10110")), DstLocation::PrefixSection(prefix("0"))).encode();
    for len in 0..bytes.len() {
        assert_eq!(Frame::decode(&bytes[..len]), None);
    }
    let mut longer = bytes.clone();
    longer.push(0);
    assert_eq!(Frame::decode(&longer), None);
    assert!(Frame::decode(&bytes).is_some());
}

#[test]
fn only_canonical_frames_decode() {
    let sent = frame(SrcLocation::Section(prefix("10110")), DstLocation::Direct);
    let bytes = sent.encode();

    // An unknown kind of source or of destination.
    let mut bad = bytes.clone();
    bad[0] = 2;
    assert_eq!(Frame::decode(&bad), None);
    let mut bad = bytes.clone();
    bad[35] = 4;
    assert_eq!(Frame::decode(&bad), None);

    // A prefix of more bits than a name has.
    let mut bad = bytes.clone();
    bad[1] = 1;
    bad[2] = 1;
    assert_eq!(Frame::decode(&bad), None);
    // A prefix whose name goes on after its bits.
    let mut bad = bytes.clone();
    bad[3] = 1;
    assert_eq!(Frame::decode(&bad), None);

    // A tag that no variant has.
    let mut bad = bytes.clone();
    bad[36] = VARIANT_COUNT;
    assert_eq!(Frame::decode(&bad), None);
    let unsendable = Frame { tag: VARIANT_COUNT, ..frame(SrcLocation::Node(name()), DstLocation::Direct) };
    assert!(!unsendable.can_be_sent());
    assert_eq!(Frame::decode(&unsendable.encode()), None);

    // A length that reaches beyond the bytes.
    let mut bad = bytes.clone();
    bad[44] = 1;
    assert_eq!(Frame::decode(&bad), None);
    // More signatures than there are.
    let mut bad = bytes.clone();
    bad[48] = 4;
    assert_eq!(Frame::decode(&bad), None);
    let mut bad = bytes;
    bad[55] = 0xff;
    assert_eq!(Frame::decode(&bad), None);
}

#[test]
fn every_variant_has_its_own_tag() {
    let info = || EldersInfo::new(vec![], Prefix::default(), 0);
    let variants = vec![
        Variant::NeighbourInfo(info()),
        Variant::UserMessage(vec![]),
        Variant::NodeApproval(info()),
        Variant::AckMessage { src_prefix: Prefix::default(), ack_version: 0 },
        Variant::GenesisUpdate(info()),
        Variant::Relocate(RelocateDetails {
            pub_id: PublicId { name: name(), public_key: PublicKey { hi: 0, lo: 0 } },
            destination: name(),
            age: 1,
        }),
        Variant::MessageSignature(vec![]),
        Variant::BootstrapRequest(name()),
        Variant::BootstrapResponse(BootstrapResponse::Rebootstrap(vec![])),
        Variant::JoinRequest(JoinRequest { elders_version: 0, relocate_payload: None }),
        Variant::ConnectionResponse,
        Variant::MemberKnowledge { elders_version: 0, parsec_version: 0 },
        Variant::ParsecRequest(0, vec![]),
        Variant::ParsecResponse(0, vec![]),
    ];
    assert_eq!(variants.len(), VARIANT_COUNT as usize);
    for (number, variant) in variants.iter().enumerate() {
        assert_eq!(variant.tag() as usize, number);
        let sent = Frame::new(SrcLocation::Node(name()), DstLocation::Direct, variant, vec![1], vec![]);
        assert_eq!(sent.tag as usize, number);
        assert!(sent.can_be_sent());
    }
}
