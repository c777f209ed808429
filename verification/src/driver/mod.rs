//! The HTTP/3 driver.

pub mod arrival_laws;
pub mod books;
pub mod calm;
pub mod closing_laws;
pub mod command_laws;
pub mod commands;
pub mod core_laws;
pub mod counts;
pub mod controller;
pub mod datagram_laws;
pub mod desk;
pub mod directions;
pub mod events;
pub mod fairness;
pub mod flows;
pub mod helper;
pub mod lease_laws;
pub mod leases;
pub mod lifecycle;
pub mod openings;
pub mod order;
pub mod order_laws;
pub mod raw_laws;
pub mod readiness;
pub mod reads;
pub mod request_laws;
pub mod retained;
pub mod retirement_laws;
pub mod service;
pub mod session_ends;
pub mod state;
pub mod stats_laws;
pub mod steady;
pub mod stream_laws;
pub mod table_laws;
pub mod tables;
pub mod transfer_laws;
pub mod turn_laws;
pub mod waiting_laws;
pub mod writes;
pub mod writing_laws;
