//! Resolution of resources referenced by URL: a handler contract, a scheme
//! guard, a handler that reads nothing, and a dispatcher that tries a list of
//! handlers in order.

pub mod dispatch;
pub mod error;
pub mod handler;
pub mod location;
pub mod mime_data;

pub use dispatch::DispatchingResourceHandler;
pub use error::{Error, ErrorKind};
pub use handler::{filter_schemes, NoopResourceHandler, ResourceUrlHandler};
pub use location::ResourceUrl;
pub use mime_data::{MimeData, MimeType};
