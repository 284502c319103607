pub mod canister;
pub mod canister_id_store;
pub mod id_file;
