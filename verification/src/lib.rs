pub mod batch;
pub mod codec;
pub mod date;
pub mod locale;
pub mod session;
pub mod store;
pub mod species;
