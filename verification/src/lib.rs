//! Inventory engine for SCSI storage enclosures (JBODs).
//!
//! The enclosure-management utilities on a host emit loosely structured,
//! human-oriented text.  This crate holds the verified telemetry extraction
//! and correlation engine that turns that text into typed records: enclosure
//! identity, fan readings, temperature readings and voltage readings.  The
//! process-spawning and presentation glue around it lives outside the
//! library and only hands lines of text in and takes records out.

pub mod scan;

pub mod extract;

pub mod matcher;

pub mod enclosure;

pub mod sensors;

pub mod catalog;
