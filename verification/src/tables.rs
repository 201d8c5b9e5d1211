pub mod address_msg;
pub mod block;
pub mod msg;
pub mod schema;
pub mod tx;
