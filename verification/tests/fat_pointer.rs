use zebra_crosslink::fat_pointer::{
    hash_display_hex, hash_highlight_lo, hex_string, Blake3Hash, FatPointerSignature2, FatPointerToBftBlock2, MalVote, MalPublicKey2,
};

fn signed_pointer(vote: [u8; 44], signers: &[ed25519_zebra::SigningKey]) -> FatPointerToBftBlock2 {
    let mut pointer = FatPointerToBftBlock2 {
        vote_for_block_without_finalizer_public_key: vote,
        signatures: signers
            .iter()
            .map(|sk| FatPointerSignature2 {
                public_key: ed25519_zebra::VerificationKeyBytes::from(sk).into(),
                vote_signature: [0; 64],
            })
            .collect(),
    };
    let batch = pointer.signature_batch();
    for (sig, (sk, (_, _, msg))) in pointer
        .signatures
        .iter_mut()
        .zip(signers.iter().zip(batch.iter()))
    {
        sig.vote_signature = sk.sign(msg).to_bytes();
    }
    pointer
}

#[test]
fn vote_bytes_roundtrip() {
    let vote = MalVote {
        validator_address: MalPublicKey2([3; 32]),
        value: Blake3Hash([4; 32]),
        height: 77,
        typ: true,
        round: 5,
    };
    let bytes = vote.to_bytes();
    assert_eq!(&bytes[0..32], &[3; 32]);
    assert_eq!(&bytes[64..72], &77u64.to_le_bytes());
    assert_eq!(&bytes[72..76], &(5u32 | 0x8000_0000).to_le_bytes());
    assert_eq!(MalVote::from_bytes(&bytes), vote);
}

#[test]
fn signature_batch_signs_the_template_with_each_signer_key() {
    let mut vote = [0u8; 44];
    vote[0] = 9;
    let pointer = FatPointerToBftBlock2 {
        vote_for_block_without_finalizer_public_key: vote,
        signatures: vec![FatPointerSignature2 {
            public_key: [7; 32],
            vote_signature: [8; 64],
        }],
    };
    let batch = pointer.signature_batch();
    assert_eq!(batch.len(), 1);
    assert_eq!(batch[0].0, [7; 32]);
    assert_eq!(batch[0].1, [8; 64]);
    assert_eq!(&batch[0].2[0..32], &[7; 32]);
    assert_eq!(&batch[0].2[32..76], &vote[..]);
}

#[test]
fn valid_signatures_verify_and_tampered_ones_do_not() {
    let signers: Vec<_> = (0..3)
        .map(|_| ed25519_zebra::SigningKey::new(rand::thread_rng()))
        .collect();
    let mut vote = [0u8; 44];
    vote[..32].copy_from_slice(&[5; 32]);
    let pointer = signed_pointer(vote, &signers);
    assert!(pointer.validate_signatures());

    let mut tampered = pointer.clone();
    tampered.vote_for_block_without_finalizer_public_key[40] ^= 1;
    assert!(!tampered.validate_signatures());

    let mut forged = pointer.clone();
    forged.signatures[1].vote_signature = forged.signatures[0].vote_signature;
    assert!(!forged.validate_signatures());
}

#[test]
fn header_form_of_fat_pointer_keeps_votes_and_signatures() {
    let pointer = FatPointerToBftBlock2 {
        vote_for_block_without_finalizer_public_key: [6; 44],
        signatures: vec![
            FatPointerSignature2 {
                public_key: [1; 32],
                vote_signature: [2; 64],
            },
            FatPointerSignature2 {
                public_key: [3; 32],
                vote_signature: [4; 64],
            },
        ],
    };
    let header_form = pointer.clone().to_non_two();
    assert_eq!(header_form.vote_for_block_without_finalizer_public_key, [6; 44]);
    assert_eq!(header_form.signatures.len(), 2);
    assert_eq!(header_form.signatures[1].public_key, [3; 32]);
    assert_eq!(header_form.signatures[1].vote_signature, [4; 64]);
}

#[test]
fn fat_pointer_layout_and_short_inputs() {
    let pointer = FatPointerToBftBlock2 {
        vote_for_block_without_finalizer_public_key: [6; 44],
        signatures: vec![FatPointerSignature2 {
            public_key: [1; 32],
            vote_signature: [2; 64],
        }],
    };
    let bytes = pointer.to_bytes();
    assert_eq!(bytes.len(), 44 + 2 + 96);
    assert_eq!(&bytes[44..46], &[1, 0]);
    let (decoded, end) = FatPointerToBftBlock2::decode_at(&bytes, 0).expect("whole layout");
    assert_eq!(decoded, pointer);
    assert_eq!(end, bytes.len());
    assert_eq!(FatPointerToBftBlock2::try_from_bytes(&vec![0; 45]), None);
    assert_eq!(pointer.points_at_block_hash(), Blake3Hash([6; 32]));
    assert_eq!(hex_string(&[0x0f, 0xa0]), "0fa0");
}

#[test]
fn hash_display_greys_all_but_the_distinguishing_end() {
    let mut hash = [0u8; 32];
    hash[0] = 0xab;
    hash[31] = 0x12;
    let display = hash_display_hex(&hash);
    assert!(display.starts_with("12"));
    assert!(display.ends_with("ab"));

    let highlighted = hash_highlight_lo(&hash, 3);
    assert_eq!(
        highlighted,
        format!("\x1b[90m{}\x1b[0m{}", &display[..61], &display[61..])
    );
    assert_eq!(hash_highlight_lo(&hash, 64), format!("\x1b[90m\x1b[0m{display}"));
    assert_eq!(hash_highlight_lo(&hash, 0), format!("\x1b[90m{display}\x1b[0m"));
}

#[test]
fn signature_with_non_canonical_s_never_verifies() {
    let signers: Vec<_> = (0..2)
        .map(|_| ed25519_zebra::SigningKey::new(rand::thread_rng()))
        .collect();
    let mut vote = [0u8; 44];
    vote[..32].copy_from_slice(&[6; 32]);
    let mut pointer = signed_pointer(vote, &signers);
    assert!(pointer.validate_signatures());
    // An `s` of all ones lies above the group order.
    for b in pointer.signatures[1].vote_signature[32..].iter_mut() {
        *b = 0xff;
    }
    assert!(!pointer.validate_signatures());
}
