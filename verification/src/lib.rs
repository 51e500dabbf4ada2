//! Control plane of a cloud bridge: clients connect over a stream, say who they
//! are, and get commands; commands for a client that is away wait for it.
pub mod auth;
pub mod builder;
pub mod cert;
pub mod channels;
pub mod clock;
pub mod handle;
pub mod laws;
pub mod messages;
pub mod promises;
pub mod registry;
pub mod session;
pub mod table;
pub mod text;
pub mod validator;

pub use auth::AuthInterceptor;
pub use builder::CloudServerBuilder;
pub use cert::CertPaths;
pub use handle::CloudHandle;
pub use messages::{Claims, ConnectionEvent};
pub use registry::ClientRegistry;
pub use validator::{DefaultValidator, TokenValidator};
