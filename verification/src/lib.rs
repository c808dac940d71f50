//! A transfer hook that collects a fee in a secondary asset on every transfer
//! of an asset, and the record of extra accounts that announces what the hook
//! needs.

pub mod accounts;
pub mod address;
pub mod binding;
pub mod bytes;
pub mod error;
pub mod hook;
pub mod instruction;
pub mod layout;
pub mod record;
pub mod resolver;
pub mod seeds;

pub use accounts::{InitializeExtraAccountMetaList, TransferHook};
pub use hook::transfer_hook;
pub use instruction::fallback;
pub use resolver::initialize_extra_account_meta_list;
