pub mod rextester;
pub mod table;
pub mod tio;
pub mod wandbox;
