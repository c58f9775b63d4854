//! Block-cipher bridge: the capability contract for a fixed-size block
//! cipher, two verified implementations, the proxy the native engine's
//! trampolines forward into, and the encrypted-environment handle with
//! its exactly-once teardown discipline.

use vstd::prelude::*;

verus! {

/// A pluggable fixed-size encrypt/decrypt primitive supplied by the
/// embedder. The native engine composes it into a counter-mode encrypted
/// storage environment; that composition is the engine's own work, so the
/// contract here is only about the block primitive itself:
///
/// - `block_size` is positive and is a pure function of the
///   implementation value, so it never changes over the value's lifetime;
/// - `encrypt` and `decrypt` transform a buffer of exactly `block_size`
///   bytes in place, never fail, and never change its length
///   (`lemma_length_preserved`);
/// - `encrypt` and `decrypt` are exact inverses of each other on every
///   valid block (`lemma_inverse`);
/// - both take `&self`, so an implementation without interior mutability
///   is safe to call from many native threads at once.
pub trait IBlockCipher: Sized {
    /// Block size in bytes, as a function of the implementation value.
    spec fn spec_block_size(&self) -> usize;

    /// What `encrypt` does to a block.
    spec fn spec_encrypt(&self, data: Seq<u8>) -> Seq<u8>;

    /// What `decrypt` does to a block.
    spec fn spec_decrypt(&self, data: Seq<u8>) -> Seq<u8>;

    /// Law: a transform never changes the length of a valid block.
    proof fn lemma_length_preserved(&self, data: Seq<u8>)
        requires
            data.len() == self.spec_block_size(),
        ensures
            self.spec_encrypt(data).len() == data.len(),
            self.spec_decrypt(data).len() == data.len(),
    ;

    /// Law: the two transforms are exact inverses on every valid block.
    proof fn lemma_inverse(&self, data: Seq<u8>)
        requires
            data.len() == self.spec_block_size(),
        ensures
            self.spec_decrypt(self.spec_encrypt(data)) == data,
            self.spec_encrypt(self.spec_decrypt(data)) == data,
    ;

    fn block_size(&self) -> (r: usize)
        ensures
            r == self.spec_block_size(),
            r > 0,
    ;

    fn encrypt(&self, data: &mut Vec<u8>)
        requires
            old(data)@.len() == self.spec_block_size(),
        ensures
            final(data)@ == self.spec_encrypt(old(data)@),
    ;

    fn decrypt(&self, data: &mut Vec<u8>)
        requires
            old(data)@.len() == self.spec_block_size(),
        ensures
            final(data)@ == self.spec_decrypt(old(data)@),
    ;
}

/// Round trip: for every implementation and every block of the right
/// size, decrypting an encrypted block gives the block back, and
/// encrypting a decrypted block does too.
pub proof fn lemma_cipher_round_trip<C: IBlockCipher>(cipher: &C, block: Seq<u8>)
    requires
        block.len() == cipher.spec_block_size(),
    ensures
        cipher.spec_decrypt(cipher.spec_encrypt(block)) == block,
        cipher.spec_encrypt(cipher.spec_decrypt(block)) == block,
{
    cipher.lemma_inverse(block);
}

/// The successor of a byte, wrapping 255 around to 0.
pub open spec fn shift_up_byte(b: u8) -> u8 {
    if b == 255 {
        0
    } else {
        (b + 1) as u8
    }
}

/// The predecessor of a byte, wrapping 0 around to 255.
pub open spec fn shift_down_byte(b: u8) -> u8 {
    if b == 0 {
        255
    } else {
        (b - 1) as u8
    }
}

/// A cipher that replaces every byte with its wrapping successor on
/// encryption and its wrapping predecessor on decryption. Useful as a
/// plainly invertible stand-in cipher with a configurable block size.
pub struct ShiftCipher {
    block_size: usize,
}

impl ShiftCipher {
    #[verifier::type_invariant]
    spec fn type_inv(self) -> bool {
        self.block_size > 0
    }

    pub fn new(block_size: usize) -> (r: Self)
        requires
            block_size > 0,
        ensures
            r.spec_block_size() == block_size,
    {
        ShiftCipher { block_size }
    }
}

impl IBlockCipher for ShiftCipher {
    closed spec fn spec_block_size(&self) -> usize {
        self.block_size
    }

    open spec fn spec_encrypt(&self, data: Seq<u8>) -> Seq<u8> {
        Seq::new(data.len(), |i: int| shift_up_byte(data[i]))
    }

    open spec fn spec_decrypt(&self, data: Seq<u8>) -> Seq<u8> {
        Seq::new(data.len(), |i: int| shift_down_byte(data[i]))
    }

    proof fn lemma_length_preserved(&self, data: Seq<u8>) {
    }

    proof fn lemma_inverse(&self, data: Seq<u8>) {
        assert(self.spec_decrypt(self.spec_encrypt(data)) =~= data);
        assert(self.spec_encrypt(self.spec_decrypt(data)) =~= data);
    }

    fn block_size(&self) -> (r: usize) {
        proof {
            use_type_invariant(&*self);
        }
        self.block_size
    }

    fn encrypt(&self, data: &mut Vec<u8>) {
        let ghost orig: Seq<u8> = data@;
        let n = data.len();
        let mut i: usize = 0;
        while i < n
            invariant
                i <= n,
                n == data@.len(),
                n == orig.len(),
                forall|j: int| 0 <= j < i ==> data@[j] == shift_up_byte(orig[j]),
                forall|j: int| i <= j < n ==> data@[j] == orig[j],
            decreases n - i,
        {
            let b = data[i];
            let nb: u8 = if b == 255 {
                0
            } else {
                b + 1
            };
            data[i] = nb;
            i += 1;
        }
        proof {
            assert(data@ =~= self.spec_encrypt(orig));
        }
    }

    fn decrypt(&self, data: &mut Vec<u8>) {
        let ghost orig: Seq<u8> = data@;
        let n = data.len();
        let mut i: usize = 0;
        while i < n
            invariant
                i <= n,
                n == data@.len(),
                n == orig.len(),
                forall|j: int| 0 <= j < i ==> data@[j] == shift_down_byte(orig[j]),
                forall|j: int| i <= j < n ==> data@[j] == orig[j],
            decreases n - i,
        {
            let b = data[i];
            let nb: u8 = if b == 0 {
                255
            } else {
                b - 1
            };
            data[i] = nb;
            i += 1;
        }
        proof {
            assert(data@ =~= self.spec_decrypt(orig));
        }
    }
}

/// A block XORed pointwise with a keystream of the same length.
pub open spec fn xor_with(data: Seq<u8>, key: Seq<u8>) -> Seq<u8> {
    Seq::new(data.len(), |i: int| data[i] ^ key[i])
}

proof fn lemma_xor_cancel(a: u8, b: u8)
    ensures
        (a ^ b) ^ b == a,
{
    assert((a ^ b) ^ b == a) by (bit_vector);
}

/// A cipher that XORs each block with a fixed keystream. XOR is its own
/// inverse, so encryption and decryption are the same transform and the
/// block size equals the keystream length.
pub struct XorKeystreamCipher {
    keystream: Vec<u8>,
}

impl XorKeystreamCipher {
    #[verifier::type_invariant]
    spec fn type_inv(self) -> bool {
        self.keystream@.len() > 0
    }

    /// The fixed keystream this cipher was built with.
    pub closed spec fn spec_keystream(&self) -> Seq<u8> {
        self.keystream@
    }

    pub fn new(keystream: Vec<u8>) -> (r: Self)
        requires
            keystream@.len() > 0,
        ensures
            r.spec_keystream() == keystream@,
            r.spec_block_size() == keystream@.len(),
    {
        XorKeystreamCipher { keystream }
    }
}

impl IBlockCipher for XorKeystreamCipher {
    closed spec fn spec_block_size(&self) -> usize {
        self.keystream.len()
    }

    open spec fn spec_encrypt(&self, data: Seq<u8>) -> Seq<u8> {
        xor_with(data, self.spec_keystream())
    }

    open spec fn spec_decrypt(&self, data: Seq<u8>) -> Seq<u8> {
        xor_with(data, self.spec_keystream())
    }

    proof fn lemma_length_preserved(&self, data: Seq<u8>) {
    }

    proof fn lemma_inverse(&self, data: Seq<u8>) {
        lemma_xor_involution(self, data);
    }

    fn block_size(&self) -> (r: usize) {
        proof {
            use_type_invariant(&*self);
        }
        self.keystream.len()
    }

    fn encrypt(&self, data: &mut Vec<u8>) {
        xor_in_place(data, &self.keystream);
    }

    fn decrypt(&self, data: &mut Vec<u8>) {
        xor_in_place(data, &self.keystream);
    }
}

/// Self-inverse: applying an XOR-keystream cipher twice to a block of
/// the right size gives the block back, and its decryption is the very
/// same transform as its encryption.
pub proof fn lemma_xor_involution(cipher: &XorKeystreamCipher, block: Seq<u8>)
    requires
        block.len() == cipher.spec_block_size(),
    ensures
        cipher.spec_encrypt(cipher.spec_encrypt(block)) == block,
        cipher.spec_decrypt(block) == cipher.spec_encrypt(block),
{
    let key = cipher.spec_keystream();
    let once = xor_with(block, key);
    let twice = xor_with(once, key);
    assert forall|i: int| 0 <= i < block.len() implies twice[i] == block[i] by {
        lemma_xor_cancel(block[i], key[i]);
    }
    assert(twice =~= block);
}

fn xor_in_place(data: &mut Vec<u8>, key: &Vec<u8>)
    requires
        old(data)@.len() == key@.len(),
    ensures
        final(data)@ == xor_with(old(data)@, key@),
{
    let ghost orig: Seq<u8> = data@;
    let n = data.len();
    let mut i: usize = 0;
    while i < n
        invariant
            i <= n,
            n == data@.len(),
            n == orig.len(),
            n == key@.len(),
            forall|j: int| 0 <= j < i ==> data@[j] == (orig[j] ^ key@[j]),
            forall|j: int| i <= j < n ==> data@[j] == orig[j],
        decreases n - i,
    {
        let nb: u8 = data[i] ^ key[i];
        data[i] = nb;
        i += 1;
    }
    proof {
        assert(data@ =~= xor_with(orig, key@));
    }
}

/// The heap-allocated holder of one cipher implementation. The native
/// engine only keeps an opaque pointer to it; every trampoline recovers
/// the proxy from that pointer and forwards through these methods, which
/// are the computing part of the trampolines.
pub struct BlockCipherProxy<C: IBlockCipher> {
    cipher: C,
}

impl<C: IBlockCipher> BlockCipherProxy<C> {
    /// The implementation this proxy owns.
    pub closed spec fn spec_cipher(&self) -> C {
        self.cipher
    }

    pub fn new(cipher: C) -> (r: Self)
        ensures
            r.spec_cipher() == cipher,
    {
        BlockCipherProxy { cipher }
    }

    /// Computing part of the block-size trampoline.
    pub fn block_size(&self) -> (r: usize)
        ensures
            r == self.spec_cipher().spec_block_size(),
            r > 0,
    {
        self.cipher.block_size()
    }

    /// Computing part of the encrypt trampoline, for a buffer already
    /// known to hold exactly one block.
    pub fn encrypt_block(&self, data: &mut Vec<u8>)
        requires
            old(data)@.len() == self.spec_cipher().spec_block_size(),
        ensures
            final(data)@ == self.spec_cipher().spec_encrypt(old(data)@),
    {
        self.cipher.encrypt(data);
    }

    /// Computing part of the decrypt trampoline, for a buffer already
    /// known to hold exactly one block.
    pub fn decrypt_block(&self, data: &mut Vec<u8>)
        requires
            old(data)@.len() == self.spec_cipher().spec_block_size(),
        ensures
            final(data)@ == self.spec_cipher().spec_decrypt(old(data)@),
    {
        self.cipher.decrypt(data);
    }

    /// Defensive encrypt: checks the buffer size instead of assuming it.
    /// Returns whether the buffer held exactly one block; a wrong-sized
    /// buffer is a caller error and is left untouched, never partially
    /// transformed.
    pub fn try_encrypt_block(&self, data: &mut Vec<u8>) -> (ok: bool)
        ensures
            ok <==> old(data)@.len() == self.spec_cipher().spec_block_size(),
            ok ==> final(data)@ == self.spec_cipher().spec_encrypt(old(data)@),
            !ok ==> final(data)@ == old(data)@,
    {
        if data.len() == self.cipher.block_size() {
            self.cipher.encrypt(data);
            true
        } else {
            false
        }
    }

    /// Defensive decrypt: the counterpart of `try_encrypt_block`.
    pub fn try_decrypt_block(&self, data: &mut Vec<u8>) -> (ok: bool)
        ensures
            ok <==> old(data)@.len() == self.spec_cipher().spec_block_size(),
            ok ==> final(data)@ == self.spec_cipher().spec_decrypt(old(data)@),
            !ok ==> final(data)@ == old(data)@,
    {
        if data.len() == self.cipher.block_size() {
            self.cipher.decrypt(data);
            true
        } else {
            false
        }
    }

    /// Computing part of the destroy trampoline: gives the owned
    /// implementation back. Taking the proxy by value is what makes a
    /// second destroy impossible — ownership ends here.
    pub fn into_cipher(self) -> (r: C)
        ensures
            r == self.spec_cipher(),
    {
        self.cipher
    }
}

/// A storage environment wrapped with an encryption provider built from
/// one block cipher. It is the single owner of the registered cipher
/// proxy and of the native resources stacked on it, and its teardown
/// issues the matching destroy calls exactly once.
pub struct EncryptedEnv<C: IBlockCipher> {
    cipher: Option<BlockCipherProxy<C>>,
    destroy_calls: u64,
}

impl<C: IBlockCipher> EncryptedEnv<C> {
    #[verifier::type_invariant]
    spec fn type_inv(self) -> bool {
        &&& self.destroy_calls <= 1
        &&& (self.cipher is Some <==> self.destroy_calls == 0)
    }

    /// Whether the native resources are still alive.
    pub closed spec fn is_live(&self) -> bool {
        self.cipher is Some
    }

    /// How many times the destroy chain has run for this environment.
    pub closed spec fn spec_destroy_calls(&self) -> u64 {
        self.destroy_calls
    }

    /// The cipher the environment was built around (meaningful while it
    /// is live).
    pub closed spec fn spec_cipher(&self) -> C {
        self.cipher->Some_0.spec_cipher()
    }

    /// How many times the destroy chain has run: never more than once,
    /// and zero exactly as long as the environment is live.
    pub fn destroy_calls(&self) -> (n: u64)
        ensures
            n == self.spec_destroy_calls(),
            n <= 1,
            self.is_live() <==> n == 0,
    {
        proof {
            use_type_invariant(&*self);
        }
        self.destroy_calls
    }

    pub fn block_size(&self) -> (r: usize)
        requires
            self.is_live(),
        ensures
            r == self.spec_cipher().spec_block_size(),
            r > 0,
    {
        match &self.cipher {
            Some(proxy) => proxy.block_size(),
            None => vstd::pervasive::unreached(),
        }
    }

    /// Encrypts one block in place through the registered cipher.
    pub fn encrypt_block(&self, data: &mut Vec<u8>)
        requires
            self.is_live(),
            old(data)@.len() == self.spec_cipher().spec_block_size(),
        ensures
            final(data)@ == self.spec_cipher().spec_encrypt(old(data)@),
    {
        match &self.cipher {
            Some(proxy) => proxy.encrypt_block(data),
            None => vstd::pervasive::unreached(),
        }
    }

    /// Decrypts one block in place through the registered cipher.
    pub fn decrypt_block(&self, data: &mut Vec<u8>)
        requires
            self.is_live(),
            old(data)@.len() == self.spec_cipher().spec_block_size(),
        ensures
            final(data)@ == self.spec_cipher().spec_decrypt(old(data)@),
    {
        match &self.cipher {
            Some(proxy) => proxy.decrypt_block(data),
            None => vstd::pervasive::unreached(),
        }
    }
}

/// Builds the composition chain around one block cipher: the cipher is
/// boxed into a proxy, the native side wraps the proxy into a
/// counter-mode encryption provider and that provider into an encrypted
/// environment. The returned handle is the chain's single owner; its
/// destroy count starts at zero.
pub fn create_ctr_encrypted_env<C: IBlockCipher>(cipher: C) -> (env: EncryptedEnv<C>)
    ensures
        env.is_live(),
        env.spec_cipher() == cipher,
        env.spec_destroy_calls() == 0,
{
    EncryptedEnv { cipher: Some(BlockCipherProxy::new(cipher)), destroy_calls: 0 }
}

/// Tears the environment down. The first call issues the destroy chain
/// — exactly once — and hands the reclaimed cipher proxy back; any later
/// call changes nothing and returns `None`, so the destroy count ends at
/// one on every path.
pub fn destroy_encrypted_env<C: IBlockCipher>(env: &mut EncryptedEnv<C>) -> (freed: Option<
    BlockCipherProxy<C>,
>)
    ensures
        !final(env).is_live(),
        final(env).spec_destroy_calls() == 1,
        freed is Some <==> old(env).is_live(),
        old(env).is_live() ==> freed->Some_0.spec_cipher() == old(env).spec_cipher(),
{
    proof {
        use_type_invariant(&*env);
    }
    let mut drained = EncryptedEnv { cipher: None, destroy_calls: 1 };
    core::mem::swap(env, &mut drained);
    match drained.cipher {
        Some(proxy) => Some(proxy),
        None => None,
    }
}

} // verus!
