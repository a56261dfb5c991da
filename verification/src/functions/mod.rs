//! Function packages installed on the host: their manifests, how a request
//! finds its route, what a function run answers, and where its logs go.
pub mod manifest;
pub mod routing;
pub mod runtime;
pub mod logs;
