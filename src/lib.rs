//! A local mail-capture service: an ingestion dialogue that turns a mail
//! transfer into a stored record, a durable ordered store of those records,
//! and a one-exchange request engine to read, list and delete them.

pub mod text;
pub mod method;
pub mod router;
pub mod num;
pub mod mail;
pub mod store;
pub mod request;
pub mod response;
pub mod smtp;
