//! Single-decree Paxos: the acceptor's per-instance state machine and the
//! proposer's round arbitration, value adoption and quorum counting.
pub mod agreement;
pub mod client;
pub mod laws;
pub mod paxos;
pub mod round;
pub mod server;

pub use crate::client::{Client, Propose};
pub use crate::paxos::{Acceptor, PaxosError, PaxosInstanceId, Proposer, RoundNum, Value};
pub use crate::round::{
    check_quorum, choose_value, compare_rounds, gather_quorum, quorum_size, round_less,
    successful_replies,
};
pub use crate::server::{Call, PaxosService};
