//! A reactive spreadsheet engine, and the smaller libraries that grew up
//! beside it.
//!
//! The spreadsheet: cells addressed by column and row ([`identifier`]) hold
//! values ([`cell_value`], [`cell`]); a formula names the cells it reads
//! ([`eval`]) and, where it is admitted ([`admission`]), is evaluated by
//! the formula evaluator ([`formula`]); the sheet keeps the cells with the dependency edges between them
//! ([`spreadsheet`]), carries every change on to the cells that depend on
//! it ([`propagation`]), and serves the messages of its clients
//! ([`server`]).
//!
//! The card game: cards and jokers ([`cards`]), the hands of poker
//! ([`poker`], with [`groups`] and [`sorting`]), what jokers and card
//! modifiers do ([`jokers`], [`modifiers`]), and the scoring of a round
//! ([`game`], [`scoring`], [`errors`]).
//!
//! The rest: points and directions on the plane ([`coordinate`],
//! [`direction`], [`pointy`]), the Caesar cipher ([`caesar`]), a tree of
//! lights ([`lights`]), a processor with hooks ([`hooked`]), arithmetic on
//! digits ([`channels`]), text buffers ([`buffer`], [`text`]), totals by
//! name for stations and courses ([`tally`], [`stations`]), pixels
//! ([`drawing`]), a page with a counter ([`pages`]) and means
//! ([`average`]).

pub mod admission;
pub mod average;
pub mod buffer;
pub mod caesar;
pub mod cards;
pub mod cell;
pub mod cell_value;
pub mod channels;
pub mod coordinate;
pub mod direction;
pub mod drawing;
pub mod errors;
pub mod eval;
pub mod formula;
pub mod game;
pub mod groups;
pub mod hooked;
pub mod identifier;
pub mod jokers;
pub mod lights;
pub mod modifiers;
pub mod pages;
pub mod pointy;
pub mod poker;
pub mod propagation;
pub mod scoring;
pub mod server;
pub mod sorting;
pub mod spreadsheet;
pub mod stations;
pub mod tally;
pub mod text;
