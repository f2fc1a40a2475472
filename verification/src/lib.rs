//! An automated trading engine for the "infinite buying" style of averaging
//! into leveraged ETFs.

pub mod text;
pub mod lookup;
pub mod decimal;
pub mod date;
pub mod money;
pub mod error;
pub mod market;
pub mod calendar;
pub mod schedule;
pub mod order;
pub mod position;
pub mod ports;
pub mod settlement;
pub mod risk;
pub mod infinite_buying;
pub mod registry;
pub mod backtest;
pub mod paper;
pub mod http;
pub mod kis_session;
pub mod kis;
pub mod kis_domestic;
pub mod toss;
pub mod secrets;
pub mod connect;
pub mod config;
pub mod migrate;
pub mod data;
pub mod usecases;
pub mod tick;
pub mod journal;
pub mod engine;
pub mod report;
pub mod jobs;
