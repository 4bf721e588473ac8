//! An orchestrator that assembles builds out of workshop items, runs each build
//! and each publish in a container, and keeps what came of it.
//!
//! The library holds what the orchestrator decides: the store and its single
//! writer, the jobs that drive the container engine, the rate limiter, the
//! readers of the marketplace's pages, and the answers of the public surface.
//! What it decides on is handed to it as plain values.
pub mod ansi;
pub mod build_job;
pub mod config;
pub mod db;
pub mod errslop;
pub mod handlers;
pub mod httpreq;
pub mod logging;
pub mod misc;
pub mod no_args;
pub mod parsing;
pub mod podman;
pub mod publish;
pub mod rate_limit;
pub mod steamapi;
pub mod steamcmd;
pub mod steamweb;
pub mod supervisor;
pub mod text;
pub mod types;
pub mod www;
