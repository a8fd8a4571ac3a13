pub mod account_book;
pub mod account_book_proof;
pub mod buy_intent;
pub mod data;
pub mod dob_selling;
pub mod error;
pub mod hash;
pub mod level;
pub mod member_info;
pub mod smt;
pub mod spore;
pub mod tx;
pub mod udt_info;

pub use hash::{ckb_hash, ckb_hash_of, hash_eq, Hash32, HASH_SIZE};
