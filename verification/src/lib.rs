//! A small client for a secret-management HTTP service.
//!
//! The client knows where the service is and which token opens it, makes the URL of a secret
//! below the versioned path of the service, and says what an answer of the service means. It
//! reads no environment and opens no connection: configuration values and answers are handed
//! to it.
//!
//! URLs are read and rewritten by the `url` crate. The calls stand in `urls`. `admission`
//! says which texts are handed to them. What comes back is text, and `url_text` holds what
//! the client checks of that text before it goes on with it.

pub mod admission;
pub mod client;
pub mod errors;
pub mod url_text;
pub mod urls;
