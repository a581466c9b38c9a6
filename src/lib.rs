//! Backend of a desktop chat client: a conversation store kept in an
//! embedded SQL database, and a gateway to a local model server.

pub mod clock;
pub mod gateway;
pub mod images;
pub mod migration;
pub mod order;
pub mod paths;
pub mod store;
pub mod text;
