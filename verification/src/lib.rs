pub mod chain;
pub mod error;
pub mod handler;
pub mod headers;
pub mod laws;
pub mod machine;
pub mod middleware;
pub mod modifier;
pub mod request;
pub mod response;
pub mod status;

pub use chain::Chain;
pub use error::{Cause, Error, IronError, IronResult, NotFound};
pub use handler::{FnHandler, Handler, IntoHandler};
pub use headers::{Header, Headers};
pub use machine::{Phase, State};
pub use middleware::{AfterFn, AfterMiddleware, BeforeFn, BeforeMiddleware};
pub use modifier::Modifier;
pub use request::{Method, Request};
pub use response::Response;
pub use status::Status;
