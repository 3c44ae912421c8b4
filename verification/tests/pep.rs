use base64::Engine;
use laundry_scraper::pep::{pep_from_digest, to_le_bytes, PhysicalEndpointId};

const MACHINE: [u8; 16] = [
    0xa1, 0xa2, 0xa3, 0xa4, 0xb1, 0xb2, 0xc1, 0xc2, 0xd1, 0xd2, 0xd3, 0xd4, 0xd5, 0xd6, 0xd7, 0xd8,
];

const LOCATION: [u8; 16] = [
    0x8e, 0xbe, 0x50, 0x6e, 0x0e, 0x8d, 0x40, 0x6c, 0xbf, 0x4c, 0x33, 0xe1, 0x26, 0xee, 0x38, 0xb4,
];

fn sample(sticker_number: u32, room_id: &str) -> PhysicalEndpointId {
    PhysicalEndpointId {
        sticker_number,
        machine_id: MACHINE,
        room_id: room_id.to_string(),
        location_id: LOCATION,
    }
}

fn expected(id: &PhysicalEndpointId) -> String {
    let mut bytes = Vec::new();
    bytes.extend_from_slice(&id.sticker_number.to_le_bytes());
    bytes.extend_from_slice(&id.machine_id);
    bytes.extend_from_slice(id.room_id.as_bytes());
    bytes.extend_from_slice(&id.location_id);
    let hash = xxhash_rust::xxh3::xxh3_128(&bytes);
    base64::engine::general_purpose::URL_SAFE_NO_PAD.encode(hash.to_le_bytes())
}

#[test]
fn le_bytes_of_a_sticker_number() {
    assert_eq!(to_le_bytes(0x0102_0304, 4), vec![4, 3, 2, 1]);
    assert_eq!(to_le_bytes(7, 4), vec![7, 0, 0, 0]);
    assert_eq!(to_le_bytes(0x1_0000_0001, 4), vec![1, 0, 0, 0]);
    assert_eq!(to_le_bytes(5, 0), Vec::<u8>::new());
}

#[test]
fn le_bytes_of_a_digest() {
    let digest: u128 = 0x0f0e_0d0c_0b0a_0908_0706_0504_0302_0100;
    assert_eq!(to_le_bytes(digest, 16), (0u8..16).collect::<Vec<u8>>());
    assert_eq!(to_le_bytes(digest, 16), digest.to_le_bytes().to_vec());
}

#[test]
fn preimage_has_the_fixed_order() {
    let id = sample(0x0102_0304, "6321295-001");
    let mut want = vec![4u8, 3, 2, 1];
    want.extend_from_slice(&MACHINE);
    want.extend_from_slice(b"6321295-001");
    want.extend_from_slice(&LOCATION);
    assert_eq!(id.preimage(), want);
    assert_eq!(id.preimage().len(), 4 + 16 + 11 + 16);
}

#[test]
fn preimage_takes_the_room_as_utf8() {
    let id = sample(1, "r\u{e9}\u{20ac}");
    let bytes = id.preimage();
    assert_eq!(&bytes[20..26], &[0x72, 0xc3, 0xa9, 0xe2, 0x82, 0xac]);
    assert_eq!(bytes.len(), 4 + 16 + 6 + 16);
}

#[test]
fn digest_text_of_zero() {
    assert_eq!(pep_from_digest(0), "AAAAAAAAAAAAAAAAAAAAAA");
}

#[test]
fn digest_text_of_one() {
    assert_eq!(pep_from_digest(1), "AQAAAAAAAAAAAAAAAAAAAA");
}

#[test]
fn digest_text_of_all_ones() {
    assert_eq!(pep_from_digest(u128::MAX), "_____________________w");
}

#[test]
fn digest_text_uses_the_url_safe_alphabet() {
    // bytes fb ff 00 ..: the six-bit groups are 62, 63, 60, 0, ..
    let text = pep_from_digest(0xfffb);
    assert_eq!(text, "-_8AAAAAAAAAAAAAAAAAAA");
}

#[test]
fn digest_text_is_the_text_of_the_le_bytes() {
    let digest: u128 = 0x99aa_06d3_0147_98d8_6001_c324_468d_497f;
    let want = base64::engine::general_purpose::URL_SAFE_NO_PAD.encode(digest.to_le_bytes());
    assert_eq!(pep_from_digest(digest), want);
}

#[test]
fn pep_is_the_text_of_the_hash_of_the_preimage() {
    let id = sample(42, "6321295-001");
    assert_eq!(id.calculate_pep(), expected(&id));
    let id = sample(0, "");
    assert_eq!(id.calculate_pep(), expected(&id));
    let id = sample(u32::MAX, "r\u{e9}\u{20ac}");
    assert_eq!(id.calculate_pep(), expected(&id));
}

#[test]
fn pep_is_deterministic() {
    let a = sample(42, "6321295-001");
    let b = sample(42, "6321295-001");
    assert_eq!(a.calculate_pep(), a.calculate_pep());
    assert_eq!(a.calculate_pep(), b.calculate_pep());
}

#[test]
fn pep_decodes_to_sixteen_bytes() {
    for sticker in 0..50u32 {
        let id = sample(sticker, "6321295-001");
        let text = id.calculate_pep();
        assert_eq!(text.len(), 22);
        assert!(text
            .chars()
            .all(|c| c.is_ascii_alphanumeric() || c == '-' || c == '_'));
        let bytes = base64::engine::general_purpose::URL_SAFE_NO_PAD
            .decode(&text)
            .unwrap();
        assert_eq!(bytes.len(), 16);
        assert_eq!(bytes, xxhash_rust::xxh3::xxh3_128(&id.preimage()).to_le_bytes());
    }
}

#[test]
fn pep_changes_with_every_single_bit() {
    let base = sample(0x1234_5678, "6321295-001");
    let base_text = base.calculate_pep();
    let mut flips = 0;
    let mut changed = 0;
    for bit in 0..32 {
        let mut id = sample(0x1234_5678, "6321295-001");
        id.sticker_number ^= 1 << bit;
        flips += 1;
        if id.calculate_pep() != base_text {
            changed += 1;
        }
    }
    for bit in 0..128 {
        let mut id = sample(0x1234_5678, "6321295-001");
        id.machine_id[bit / 8] ^= 1 << (bit % 8);
        flips += 1;
        if id.calculate_pep() != base_text {
            changed += 1;
        }
        let mut id = sample(0x1234_5678, "6321295-001");
        id.location_id[bit / 8] ^= 1 << (bit % 8);
        flips += 1;
        if id.calculate_pep() != base_text {
            changed += 1;
        }
    }
    let room = b"6321295-001";
    for bit in 0..(room.len() * 8) {
        // the high bit would leave ASCII: flip the low seven bits only
        if bit % 8 == 7 {
            continue;
        }
        let mut bytes = room.to_vec();
        bytes[bit / 8] ^= 1 << (bit % 8);
        let id = sample(0x1234_5678, std::str::from_utf8(&bytes).unwrap());
        flips += 1;
        if id.calculate_pep() != base_text {
            changed += 1;
        }
    }
    assert_eq!(flips, 32 + 256 + 77);
    assert_eq!(changed, flips);
}

#[test]
fn pep_depends_on_the_order_of_the_identifiers() {
    let a = PhysicalEndpointId {
        sticker_number: 1,
        machine_id: MACHINE,
        room_id: "R1".to_string(),
        location_id: LOCATION,
    };
    let b = PhysicalEndpointId {
        sticker_number: 1,
        machine_id: LOCATION,
        room_id: "R1".to_string(),
        location_id: MACHINE,
    };
    assert_ne!(a.calculate_pep(), b.calculate_pep());
}
