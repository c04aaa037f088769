pub mod chat;
pub mod index;
pub mod msg;
pub mod session;
pub mod todo;

pub use chat::ChatState;
pub use msg::{Msg, MsgData};
pub use todo::{Todo, TodoStore};
