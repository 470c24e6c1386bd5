//! A Steamworks API emulation library: the state of each emulated interface
//! (HTTP, screenshots, friends, game servers, input, inventory, cloud files,
//! workshop, sockets, music, ...) as plain values, with the operations that
//! the exported C functions perform on it.
#![allow(non_camel_case_types)]

pub mod cbuf;
pub mod strmap;
pub mod http;
pub mod screenshots;
pub mod rng;
pub mod gameserver;
pub mod lookup;
pub mod friends;
pub mod htmlsurface;
pub mod parental;
pub mod music;
pub mod input;
pub mod inventory;
pub mod sockets;
pub mod advanced;
pub mod protocol;
pub mod storage;
pub mod ugc;
pub mod user;
pub mod client;
pub mod utils;
pub mod interfaces;
pub mod tools;
