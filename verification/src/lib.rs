//! Verified core of a storage engine's callback bridges.
//!
//! A native storage engine drives two externally supplied capabilities
//! through a raw function-pointer ABI: compaction-guard placement and a
//! fixed-size block cipher. This crate holds everything about those
//! bridges that can be stated and proved over plain values: the
//! capability contracts, the proxies that forward to an implementation,
//! the marshaling of guard lists into the count/length/buffer layout the
//! native side expects, and the exactly-once teardown discipline of the
//! handles that own a registered capability. The raw-pointer shells that
//! sit between this core and the native engine are ordinary unverified
//! plumbing and live outside the library.

pub mod compaction_guard;
pub mod encryption;

pub use compaction_guard::CompactionGuard;
pub use compaction_guard::CompactionGuardHandle;
pub use compaction_guard::CompactionGuardProxy;
pub use compaction_guard::FixedGuards;
pub use compaction_guard::GuardBuffers;
pub use compaction_guard::GuardReply;
pub use compaction_guard::MarshalError;
pub use compaction_guard::guard_reply;
pub use compaction_guard::marshal_guards;
pub use compaction_guard::native_alloc_calls;
pub use compaction_guard::new_compaction_gurad;
pub use encryption::BlockCipherProxy;
pub use encryption::EncryptedEnv;
pub use encryption::IBlockCipher;
pub use encryption::ShiftCipher;
pub use encryption::XorKeystreamCipher;
pub use encryption::create_ctr_encrypted_env;
pub use encryption::destroy_encrypted_env;
