//! A small URL-shortener core: a store of alias -> target-URL links,
//! alias resolution, link creation with URL validation, HTML rendering
//! of the link list, and the routing of HTTP requests to these actions.

pub mod errors;
pub mod laws;
pub mod manager;
pub mod render;
pub mod resolver;
pub mod router;
pub mod store;
pub mod urlcheck;
pub mod util;
