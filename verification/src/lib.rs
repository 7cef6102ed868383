//! Verified core of a command-line comic downloader: text and path rules,
//! the chapter-catalogue decryption, the JSON walks over the site's replies,
//! the update check and the decisions of the interactive loops.
pub mod text;
pub mod storage;
pub mod types;
pub mod json;
pub mod crypto;
pub mod catalogue;
pub mod secrets;
pub mod site;
pub mod numbers;
pub mod updates;
pub mod flow;
pub mod download;
