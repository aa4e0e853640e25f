pub mod addr;
pub mod auth;
pub mod engine;
pub mod errors;
pub mod fees;
pub mod genaddr;
pub mod hashing;
pub mod hashrec;
pub mod laws;
pub mod leaderboard;
pub mod models;
pub mod settle;
pub mod token;
pub mod tophalf;
