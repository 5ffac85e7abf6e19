//! The namespace/room registry: which connections are in which rooms, and
//! how a rendered frame finds its way to each member of a room.

pub mod chat_room_manager;
pub mod io_adaptor;
pub mod namespace;
pub mod namespace_manager;
pub mod socket_id_manager;
pub mod socket_io_adaptor_impl;
pub mod str_map;
