//! Building blocks of a small instant-messaging system: the user/group
//! model, the message model and its wire encoding, the server's
//! registration/login/forwarding decisions and the client's session state.

pub mod backend;
pub mod decimal;
pub mod log;
pub mod gui;
