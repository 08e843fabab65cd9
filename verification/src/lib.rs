pub mod chars;
pub mod compress;
pub mod errors;
pub mod github;
pub mod paths;
pub mod repo;
pub mod sanitize;
pub mod store;
