//! Decision logic of a small file-sharing HTTP service.
//!
//! The service accepts authenticated multipart uploads, stores each file
//! under a random name that keeps the extension the client gave, and serves
//! stored files back by name. This crate holds everything the service
//! decides: which credentials admit an upload, which part of an upload is
//! the file and what it is called on disk, which path a request reads and
//! with which content type, and how the environment configures the
//! listener. Sockets, the filesystem and the async runtime belong to the
//! binary that drives it.
//!
//! - [`tokens`]: the configured credentials.
//! - [`auth`]: the token check in front of the upload route.
//! - [`naming`]: extensions and stored names.
//! - [`upload`]: the upload handler, as a state machine.
//! - [`media`]: resolving and answering requests for stored files.
//! - [`server`]: start-up configuration.
//! - [`response`]: status codes.
//! - [`text`]: helpers on characters and strings.

pub mod auth;
pub mod media;
pub mod naming;
pub mod response;
pub mod server;
pub mod text;
pub mod tokens;
pub mod upload;
