//! Chunked-upload accounts, vault registration, and the instruction
//! discriminator, on concrete bytes.
use qcash::errors::ErrorCode;
use qcash::hashing::get_discriminator;
use qcash::storage::{Loader, Vault, VaultState, ZkProof, complete_vault, init_vault, write_loader, write_zk_proof};
use sha2::Digest;

fn sha(data: &[u8]) -> [u8; 32] {
    let d = sha2::Sha256::digest(data);
    d.into()
}

#[test]
fn proof_account_header_roundtrip() {
    let mut data = vec![0u8; 16 + 10];
    ZkProof::initialize(&mut data, 10);
    assert_eq!(&data[0..8], &[99, 112, 199, 152, 247, 109, 47, 105]);
    assert_eq!(ZkProof::read_total_len(&data), 10);
    assert_eq!(ZkProof::read_bytes_written(&data), 0);
    ZkProof::update_bytes_written(&mut data, 7);
    assert_eq!(ZkProof::read_bytes_written(&data), 7);
    assert_eq!(ZkProof::read_total_len(&data), 10);
}

#[test]
fn proof_space_and_offsets() {
    assert_eq!(ZkProof::space(100), Ok(116));
    assert_eq!(ZkProof::data_offset(), 16);
    assert_eq!(ZkProof::discriminator(), [99, 112, 199, 152, 247, 109, 47, 105]);
}

#[test]
fn chunked_upload_in_order() {
    let mut data = vec![0u8; 16 + 8];
    ZkProof::initialize(&mut data, 8);
    write_zk_proof(&mut data, 0, &vec![1, 2, 3]).unwrap();
    assert_eq!(ZkProof::read_bytes_written(&data), 3);
    write_zk_proof(&mut data, 3, &vec![4, 5, 6, 7, 8]).unwrap();
    assert_eq!(ZkProof::read_bytes_written(&data), 8);
    assert_eq!(ZkProof::get_proof_data(&data, 8), vec![1, 2, 3, 4, 5, 6, 7, 8]);
}

#[test]
fn out_of_order_chunk_is_rejected() {
    let mut data = vec![0u8; 16 + 8];
    ZkProof::initialize(&mut data, 8);
    assert_eq!(write_zk_proof(&mut data, 2, &vec![1]), Err(ErrorCode::InvalidOffset));
    assert_eq!(ZkProof::read_bytes_written(&data), 0);
}

#[test]
fn oversized_chunk_is_rejected() {
    let mut data = vec![0u8; 16 + 8];
    ZkProof::initialize(&mut data, 8);
    assert_eq!(write_zk_proof(&mut data, 0, &vec![0u8; 9]), Err(ErrorCode::PayloadTooLarge));
}

#[test]
fn loader_takes_chunks_within_bounds() {
    let mut loader = Loader { ciphertext: [0u8; 1088] };
    write_loader(&mut loader, 0, &vec![1, 2, 3]).unwrap();
    write_loader(&mut loader, 3, &vec![4]).unwrap();
    assert_eq!(&loader.ciphertext[0..4], &[1, 2, 3, 4]);
    assert_eq!(write_loader(&mut loader, 1086, &vec![0u8; 3]), Err(ErrorCode::PayloadTooLarge));
    assert_eq!(Loader::LEN, 1096);
}

#[test]
fn vault_two_phase_registration() {
    let mut key = vec![0u8; 1184];
    for (i, b) in key.iter_mut().enumerate() {
        *b = (i % 251) as u8;
    }
    let mut vault = init_vault(key[0..800].to_vec()).unwrap();
    assert_eq!(vault.version, 1);
    let expected = sha(&key);
    complete_vault(&mut vault, &key[800..].to_vec(), &expected).unwrap();
    assert_eq!(vault.kyber_pubkey, key);
}

#[test]
fn vault_first_chunk_limited_to_eight_hundred() {
    assert_eq!(init_vault(vec![0u8; 801]).unwrap_err(), ErrorCode::ChunkSizeExceeded);
    assert!(init_vault(vec![0u8; 800]).is_ok());
}

#[test]
fn vault_completion_checks_length_then_hash() {
    let mut vault = init_vault(vec![1u8; 800]).unwrap();
    // wrong total length
    assert_eq!(
        complete_vault(&mut vault, &vec![2u8; 100], &[0u8; 32]),
        Err(ErrorCode::InvalidKeyLength)
    );
    assert_eq!(vault.kyber_pubkey.len(), 800);
    // right length, wrong binding hash
    assert_eq!(
        complete_vault(&mut vault, &vec![2u8; 384], &[0u8; 32]),
        Err(ErrorCode::HashMismatch)
    );
    assert_eq!(vault.kyber_pubkey.len(), 800);
}

#[test]
fn vault_state_parses_its_layout() {
    let mut data = vec![1u8, 0u8];
    data.extend_from_slice(&3u32.to_le_bytes());
    data.extend_from_slice(&[7, 8, 9]);
    data.push(42); // trailing byte, ignored
    let v = VaultState::parse(&data).unwrap();
    assert_eq!(v.version, 1);
    assert_eq!(v.flags, 0);
    assert_eq!(v.kyber_key, vec![7, 8, 9]);
}

#[test]
fn vault_state_rejects_truncated_bytes() {
    assert_eq!(VaultState::parse(&vec![1u8, 0, 9]), None);
    let mut data = vec![1u8, 0u8];
    data.extend_from_slice(&5u32.to_le_bytes());
    data.extend_from_slice(&[7, 8, 9]); // promises 5 key bytes, holds 3
    assert_eq!(VaultState::parse(&data), None);
}

#[test]
fn discriminator_matches_the_global_digest() {
    let d = get_discriminator("transfer");
    let expected = sha(b"global:transfer");
    assert_eq!(d, expected[0..8].to_vec());
    let d2 = get_discriminator("upload_ciphertext");
    assert_eq!(d2, sha(b"global:upload_ciphertext")[0..8].to_vec());
    assert_ne!(d, d2);
}
