/// Reading a simulation's results: coverage totals and the final verdict.
pub mod check;
/// The failures that the library reports.
pub mod error;
/// The event log of a simulation.
pub mod events;
/// Generic overrides written `key=value`.
pub mod generic;
/// Code snippets that connect a hardware unit to its software model.
pub mod link;
/// The configuration handed to a design's software model.
pub mod model;
/// Character-level text helpers with their specifications.
pub mod text;
/// A hardware unit's interface: nets, language, and generic overrides.
pub mod unit;
/// The operations of the command line, as plain data.
pub mod verb;
/// The lighter command set: VHDL snippets and model configuration.
pub mod vertex;
