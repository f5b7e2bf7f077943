//! Two parts of a chat program over e-mail: reading and decrypting mails, and realtime
//! channels between the devices of a chat.
pub mod armor;
pub mod auth_results;
pub mod channel_laws;
pub mod channels;
pub mod decrypt;
pub mod decryption_info;
pub mod keys;
pub mod mail;
pub mod mime;
pub mod payload;
pub mod peers;
pub mod peerstate;
pub mod secret_key;
pub mod swarm;
pub mod text;
