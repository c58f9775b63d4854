use rocksdb_bridge::BlockCipherProxy;
use rocksdb_bridge::IBlockCipher;
use rocksdb_bridge::ShiftCipher;
use rocksdb_bridge::XorKeystreamCipher;

fn keystream_16() -> Vec<u8> {
    vec![16, 15, 14, 13, 12, 11, 10, 9, 8, 7, 6, 5, 4, 3, 2, 1]
}

#[test]
fn xor_keystream_scenario_block() {
    let cipher = XorKeystreamCipher::new(keystream_16());
    assert_eq!(cipher.block_size(), 16);

    let original: Vec<u8> = b"0123456789abcdef".to_vec();
    let mut block = original.clone();
    cipher.encrypt(&mut block);

    // One exact value: b'0' = 0x30 XORed with the first keystream byte.
    assert_eq!(block[0], 0x30 ^ 16);
    assert_eq!(block[15], b'f' ^ 1);
    assert_ne!(block, original);

    // Applying the same transform again gives the block back.
    cipher.encrypt(&mut block);
    assert_eq!(block, original);
}

#[test]
fn xor_round_trip_blocks() {
    let cipher = XorKeystreamCipher::new(keystream_16());
    let samples: Vec<Vec<u8>> = vec![
        vec![0; 16],
        vec![255; 16],
        (0..16).collect(),
        b"value1..........".to_vec(),
    ];
    for original in samples {
        let mut block = original.clone();
        cipher.encrypt(&mut block);
        cipher.decrypt(&mut block);
        assert_eq!(block, original);

        let mut block = original.clone();
        cipher.decrypt(&mut block);
        cipher.encrypt(&mut block);
        assert_eq!(block, original);
    }
}

#[test]
fn shift_cipher_exact_values() {
    let cipher = ShiftCipher::new(4);
    let mut block: Vec<u8> = vec![0, 1, 254, 255];
    cipher.encrypt(&mut block);
    assert_eq!(block, vec![1, 2, 255, 0]);
    cipher.decrypt(&mut block);
    assert_eq!(block, vec![0, 1, 254, 255]);
}

#[test]
fn shift_cipher_round_trip() {
    let cipher = ShiftCipher::new(128);
    assert_eq!(cipher.block_size(), 128);
    let original: Vec<u8> = (0..128).map(|i| (i * 3 % 256) as u8).collect();

    let mut block = original.clone();
    cipher.encrypt(&mut block);
    cipher.decrypt(&mut block);
    assert_eq!(block, original);

    let mut block = original.clone();
    cipher.decrypt(&mut block);
    cipher.encrypt(&mut block);
    assert_eq!(block, original);
}

#[test]
fn block_size_is_fixed() {
    let cipher = XorKeystreamCipher::new(keystream_16());
    assert_eq!(cipher.block_size(), 16);
    assert_eq!(cipher.block_size(), 16);

    let cipher = ShiftCipher::new(128);
    assert_eq!(cipher.block_size(), 128);
    assert_eq!(cipher.block_size(), 128);
}

#[test]
fn proxy_forwards_to_cipher() {
    let proxy = BlockCipherProxy::new(XorKeystreamCipher::new(keystream_16()));
    assert_eq!(proxy.block_size(), 16);

    let original: Vec<u8> = b"0123456789abcdef".to_vec();
    let mut via_proxy = original.clone();
    proxy.encrypt_block(&mut via_proxy);

    let cipher = XorKeystreamCipher::new(keystream_16());
    let mut direct = original.clone();
    cipher.encrypt(&mut direct);

    assert_eq!(via_proxy, direct);
    proxy.decrypt_block(&mut via_proxy);
    assert_eq!(via_proxy, original);
}

#[test]
fn interleaved_buffers_do_not_mix() {
    // The transforms take the cipher by shared reference and each
    // buffer exclusively, so overlapping calls on independent buffers
    // cannot observe each other; interleaving calls must give each
    // buffer exactly the result it gets alone.
    let cipher = XorKeystreamCipher::new(keystream_16());

    let first_original: Vec<u8> = vec![0xAA; 16];
    let second_original: Vec<u8> = (100..116).collect();

    let mut first_alone = first_original.clone();
    cipher.encrypt(&mut first_alone);
    let mut second_alone = second_original.clone();
    cipher.encrypt(&mut second_alone);

    let mut first = first_original.clone();
    let mut second = second_original.clone();
    cipher.encrypt(&mut first);
    cipher.encrypt(&mut second);
    cipher.decrypt(&mut first);
    cipher.decrypt(&mut second);
    assert_eq!(first, first_original);
    assert_eq!(second, second_original);

    cipher.encrypt(&mut first);
    assert_eq!(first, first_alone);
    cipher.encrypt(&mut second);
    assert_eq!(second, second_alone);
}

#[test]
fn proxy_rejects_wrong_sized_buffer() {
    let proxy = BlockCipherProxy::new(XorKeystreamCipher::new(keystream_16()));

    let mut short: Vec<u8> = vec![1, 2, 3];
    assert!(!proxy.try_encrypt_block(&mut short));
    assert_eq!(short, vec![1, 2, 3]);
    assert!(!proxy.try_decrypt_block(&mut short));
    assert_eq!(short, vec![1, 2, 3]);

    let mut exact: Vec<u8> = vec![0; 16];
    assert!(proxy.try_encrypt_block(&mut exact));
    assert_eq!(exact, keystream_16());
    assert!(proxy.try_decrypt_block(&mut exact));
    assert_eq!(exact, vec![0; 16]);
}
