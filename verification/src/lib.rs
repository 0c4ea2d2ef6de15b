pub mod b64;
pub mod data_uri;
