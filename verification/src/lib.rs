pub mod cache;
pub mod controller;
pub mod ip;
pub mod metadata;
pub mod packet;
pub mod text;
pub mod whois;
pub mod trace;
