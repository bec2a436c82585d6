//! Record keeping for airstrip operations on top of stable storage.

pub mod airstrip;
pub mod analysis;
pub mod codec;
pub mod emergency;
pub mod flight;
pub mod fuel;
pub mod ids;
pub mod maintenance;
pub mod message;
pub mod payload;
pub mod pilot;
pub mod pilot_schedule;
pub mod record;
pub mod revenue;
pub mod scheduling;
pub mod stable;
pub mod state;
pub mod store;
pub mod text;
