//! Verified core of an image-ingestion service: naming, storage paths,
//! thumbnail geometry and scaling, per-request state machines and the size
//! report. The driver around it reads requests, fetches, decodes and works
//! the file system; every decision is taken here.

pub mod error;
pub mod local;
pub mod naming;
pub mod remote;
pub mod report;
pub mod storage;
pub mod text;
pub mod thumbnail;
