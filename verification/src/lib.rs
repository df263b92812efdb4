pub mod access;
pub mod attachment;
pub mod base64;
pub mod claims;
pub mod competition;
pub mod credential;
pub mod id;
pub mod outcome;
pub mod participant;
pub mod records;
pub mod request;
pub mod role;
pub mod scope;
pub mod store;
pub mod text;
pub mod university;
