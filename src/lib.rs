pub mod ack_table;
pub mod laws;
pub mod message;
pub mod node;
pub mod payload;
pub mod value_set;

pub use message::{Body, Message};
pub use node::{NodeState, ProtocolError};
pub use payload::{Adjacency, Payload};
pub use value_set::ValueSet;
