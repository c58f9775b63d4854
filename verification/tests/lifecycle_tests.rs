use rocksdb_bridge::CompactionGuard;
use rocksdb_bridge::EncryptedEnv;
use rocksdb_bridge::IBlockCipher;
use rocksdb_bridge::FixedGuards;
use rocksdb_bridge::XorKeystreamCipher;
use rocksdb_bridge::create_ctr_encrypted_env;
use rocksdb_bridge::destroy_encrypted_env;
use rocksdb_bridge::new_compaction_gurad;

fn keystream_16() -> Vec<u8> {
    vec![16, 15, 14, 13, 12, 11, 10, 9, 8, 7, 6, 5, 4, 3, 2, 1]
}

#[test]
fn guard_teardown_exactly_once() {
    let mut handle = new_compaction_gurad(FixedGuards::new(vec![b"k5".to_vec()])).unwrap();
    assert_eq!(handle.destroy_calls(), 0);

    let freed = handle.teardown();
    assert!(freed.is_some());
    assert_eq!(handle.destroy_calls(), 1);

    // A second teardown issues no second destroy.
    let freed_again = handle.teardown();
    assert!(freed_again.is_none());
    assert_eq!(handle.destroy_calls(), 1);
}

#[test]
fn reclaimed_proxy_still_owns_the_implementation() {
    let mut handle = new_compaction_gurad(FixedGuards::new(vec![b"k5".to_vec()])).unwrap();
    let proxy = handle.teardown().unwrap();
    let guards = proxy.get_guards_in_range(b"k1", b"k9");
    assert_eq!(guards, vec![b"k5".to_vec()]);

    // The destroy path consumes the proxy and releases the
    // implementation itself.
    let implementation = proxy.into_guard();
    let guards = implementation.get_guards_in_range(b"k1", b"k9");
    assert_eq!(guards, vec![b"k5".to_vec()]);
}

#[test]
fn env_teardown_exactly_once() {
    let mut env = create_ctr_encrypted_env(XorKeystreamCipher::new(keystream_16()));
    assert_eq!(env.destroy_calls(), 0);

    let freed = destroy_encrypted_env(&mut env);
    assert!(freed.is_some());
    assert_eq!(env.destroy_calls(), 1);

    let freed_again = destroy_encrypted_env(&mut env);
    assert!(freed_again.is_none());
    assert_eq!(env.destroy_calls(), 1);

    // The destroy path reclaims the proxy, which still owns the cipher.
    let cipher = freed.unwrap().into_cipher();
    assert_eq!(cipher.block_size(), 16);
}

fn pad_to_block(bytes: &[u8], block_size: usize) -> Vec<u8> {
    let mut block = bytes.to_vec();
    block.resize(block_size, 0);
    block
}

fn write_blocks(env: &EncryptedEnv<XorKeystreamCipher>, values: &[Vec<u8>]) -> Vec<Vec<u8>> {
    let mut stored = Vec::new();
    for value in values {
        let mut block = pad_to_block(value, env.block_size());
        env.encrypt_block(&mut block);
        stored.push(block);
    }
    stored
}

fn read_blocks(env: &EncryptedEnv<XorKeystreamCipher>, stored: &[Vec<u8>]) -> Vec<Vec<u8>> {
    let mut values = Vec::new();
    for block in stored {
        let mut plain = block.clone();
        env.decrypt_block(&mut plain);
        values.push(plain);
    }
    values
}

#[test]
fn encrypted_env_round_trip_with_reopen() {
    let samples: Vec<(Vec<u8>, Vec<u8>)> = vec![
        (b"key1".to_vec(), b"value1".to_vec()),
        (b"key2".to_vec(), b"value2".to_vec()),
        (b"key3".to_vec(), b"value3".to_vec()),
        (b"key4".to_vec(), b"value4".to_vec()),
    ];
    let values: Vec<Vec<u8>> = samples.iter().map(|(_, v)| v.clone()).collect();
    let expected: Vec<Vec<u8>> = values.iter().map(|v| pad_to_block(v, 16)).collect();

    let mut env = create_ctr_encrypted_env(XorKeystreamCipher::new(keystream_16()));
    let stored = write_blocks(&env, &values);
    for (ciphered, plain) in stored.iter().zip(expected.iter()) {
        assert_ne!(ciphered, plain);
    }

    // Read back while the environment is open.
    assert_eq!(read_blocks(&env, &stored), expected);

    // Close the environment, then reopen with the same cipher: the
    // stored bytes still decrypt to the written values.
    destroy_encrypted_env(&mut env);
    let mut env = create_ctr_encrypted_env(XorKeystreamCipher::new(keystream_16()));
    assert_eq!(read_blocks(&env, &stored), expected);
    destroy_encrypted_env(&mut env);
}
