//! Session and credential management for an HTTP server: opaque session
//! tokens and the store that issues them, and HTTP Basic authentication
//! against a set of hashed credentials.

pub mod accounts;
pub mod authorization;
pub mod base64url;
pub mod bcrypt;
pub mod credentials;
pub mod header;
pub mod random;
pub mod realm;
pub mod session;
pub mod text;
pub mod token;

pub use accounts::AccountSet;
pub use accounts::Challenge;
pub use accounts::Protected;
pub use accounts::User;
pub use authorization::Authorization;
pub use credentials::Credentials;
pub use credentials::Hashed;
pub use credentials::Unauthorized;
pub use realm::Realm;
pub use realm::RealmError;
pub use session::Session;
pub use session::SessionStore;
pub use token::Token;
