//! Protocol core of a two-player lockstep duel: the framed packet codec, the
//! pairing server's waiting slot, and the commit-reveal tick synchronizer.

pub mod authority;
pub mod client;
pub mod codec;
pub mod commit;
pub mod control;
pub mod error;
pub mod frames;
pub mod little_endian;
pub mod lockstep;
pub mod network;
pub mod packets;
pub mod player;
pub mod server;
pub mod trusted;
pub mod varint;
pub mod wire;
pub mod world;
