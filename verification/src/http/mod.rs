//! HTTP vocabulary shared by routers and servers.

mod method;
pub use method::Method;

mod status;
pub use status::{Status, lemma_status_classes_partition};

pub mod uri;
pub use uri::{Uri, UriParts};

pub mod header;
pub use header::{Header, HeaderList};

pub mod router;
pub use router::{MiddlewareHandler, Nested, Route, Router, Routes};

pub mod request;
pub use request::Request;

pub mod response;
pub use response::{IntoResponse, Response};
