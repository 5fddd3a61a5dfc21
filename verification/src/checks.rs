//! The checks, one module each.

pub mod panic_usage;
pub mod authorize_as_contract;
pub mod float_arithmetic;
pub mod weak_randomness;
pub mod lock_period_truncation;
pub mod linear_whitelist_scan;
pub mod sequence_nonce;
pub mod amount_mul_overflow;
pub mod balance_not_verified_after_transfer;
pub mod bytes_not_bytesn;
pub mod map_key_explosion;
pub mod no_std;
pub mod keys;
pub mod instance_remove_critical;
pub mod unauth_sensitive_read;
pub mod migration_guard;
pub mod ownership_transfer;
pub mod negative_deposit;
pub mod admin_key_removal;
pub mod timestamp_as_nonce;
pub mod while_no_bound;
pub mod zero_amount;
pub mod storage_type_confusion;
pub mod secp256k1_unchecked;
pub mod unbounded_input_storage;
pub mod contracttype;
pub mod ed25519_key_in_temp;
pub mod unauth_address_in_struct;
pub mod contracterror_attr;
pub mod auth_loop_dos;
pub mod balance_overflow;
pub mod token_burn_auth;
pub mod uncapped_slippage;
pub mod instance_vec_growth;
pub mod tier_key_collision;
pub mod partial_write_on_error;
pub mod storage_has_get_race;
pub mod nonce_increment_order;
pub mod self_transfer;
pub mod token_shared_storage;
pub mod storage_key_collision;
pub mod assert_for_auth;
