//! A Bluetooth LE peripheral on top of BlueZ.
//!
//! The library holds all decisions of such a peripheral. It works out what to publish for the
//! services that an application describes ([`application_factory`]), what to advertise for a
//! payload ([`advertiser`]), what to do about the requests of clients ([`handlers`]), and how
//! the event loop between them and the application acts ([`peripheral`]). What is sent where is
//! left to the caller.
//!
//! What these owe to clients and applications as a whole is stated in [`application_laws`],
//! [`advertiser_laws`] and [`server_laws`].

pub mod advertisement;
pub mod advertiser;
pub mod advertiser_laws;
pub mod application_factory;
pub mod application_laws;
pub mod att_error;
pub mod byte_reader;
pub mod connection;
pub mod descriptors;
pub mod device_ident;
pub mod err_util;
pub mod event;
pub mod gatt;
pub mod handle;
pub mod handlers;
pub mod peripheral;
pub mod responder;
pub mod server_laws;
pub mod uuid_util;
pub mod writer;
