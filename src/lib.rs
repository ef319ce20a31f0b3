//! Publish/subscribe over synthetic weather readings: a station draws
//! readings from bounded random generators and pushes each record to the
//! listeners registered under their names; the listeners keep the latest
//! record or a bounded window of recent readings with its min/max/sum.

pub mod data;
pub mod observer;
pub mod weather;
pub mod widget;
