//! Reads a railway timetable feed in its fixed-layout text format, works out
//! on which days each service runs, splits through-services into legs and
//! lays out the journey rows and upsert statements for a relational store.
//! Beside that it holds the rules of the tools around the live feed: the
//! sources of its messages and the connection of its viewer.

pub mod bridge;
pub mod calendar;
pub mod company;
pub mod db;
pub mod footnote;
pub mod identification;
pub mod journey;
pub mod latin1;
pub mod materializer;
pub mod pipeline;
pub mod service;
pub mod statement;
pub mod station;
pub mod text;
pub mod timetable;
pub mod viewer;
pub mod views;
