pub mod query;
pub mod record;
pub mod store;
pub mod table;
pub mod text;
