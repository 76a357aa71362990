pub mod asset;
pub mod canonical;
pub mod catalog;
pub mod encoding;
pub mod numeric;
pub mod scheduler;
pub mod signature;
pub mod uploader;
