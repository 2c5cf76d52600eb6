//! Billing, table-management and kitchen-ticket logic of a restaurant
//! point-of-sale system.
pub mod text;
pub mod models;
pub mod cart;
pub mod seqs;
pub mod tables;
pub mod receipts;
pub mod config;
pub mod printer;
pub mod error;
pub mod fuzzy;
pub mod app;
