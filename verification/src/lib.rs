pub mod classify;
pub mod config;
pub mod deviantart;
pub mod furaffinity;
pub mod html;
pub mod model;
pub mod registry;
pub mod text;
pub mod url;

pub use text::trim_nl;
pub use url::fix_relative_scheme;
