//! A conformance-test harness core: the length-prefixed request/response
//! protocol, the assertion engine that classifies a subject's responses, a
//! line-based diff, a registry of JSON validators, and the stats/report
//! pipeline. Process plumbing (spawning the subject, pipes, files) lives in
//! the accompanying application; everything here is verified.

pub mod case;
pub mod differ;
pub mod engine;
pub mod frame;
pub mod json;
pub mod report;
pub mod session;
pub mod stats;
pub mod strutil;
pub mod test_case;
pub mod validator;
pub mod wire;
