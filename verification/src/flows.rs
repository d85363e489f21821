//! The decisions that the delivery of updates takes.

pub mod update_decide_reciever_flow;
