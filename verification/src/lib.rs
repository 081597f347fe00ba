//! The decision logic of a trusted-peer keyboard, clipboard and file sharing
//! application: everything that can be settled without touching a socket, a
//! file or a screen.

pub mod admission;
pub mod arbitration;
pub mod checkpoint;
pub mod cli;
pub mod clipboard;
pub mod clock;
pub mod connection;
pub mod content;
pub mod daemon;
pub mod daemon_log;
pub mod digest;
pub mod feedback;
pub mod files;
pub mod fingerprint;
pub mod ids;
pub mod inbound;
pub mod input;
pub mod input_config;
pub mod input_share;
pub mod labels;
pub mod lanes;
pub mod leases;
pub mod manifest;
pub mod media;
pub mod message;
pub mod mobile;
pub mod net;
pub mod notifications;
pub mod outbound;
pub mod outside;
pub mod pairing;
pub mod panel;
pub mod paths;
pub mod queue;
pub mod receive;
pub mod sharing;
pub mod sim_config;
pub mod sim_report;
pub mod simulation;
pub mod sorting;
pub mod sources;
pub mod text;
pub mod transfer_error;
pub mod trust;
pub mod walk;
