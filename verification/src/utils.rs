pub mod basic_token;
pub mod integrity;
pub mod tar;
