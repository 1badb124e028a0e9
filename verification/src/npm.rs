pub mod npm;
pub mod package_json;
pub mod package_name;
pub mod package_tar;
pub mod publish;
pub mod registry_client;
