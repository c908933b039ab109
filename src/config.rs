//! Startup settings of the server, read once and never changed.
use vstd::prelude::*;
use crate::gate::{Gate, GateState};

verus! {

/// Where to listen, which model and tokenizer to load, and how many
/// inference operations may run at once.
pub struct Config {
    pub host: String,
    pub port: u16,
    pub model_name: String,
    pub model_path: String,
    pub tokenizer_path: String,
    pub cpu: bool,
    pub concurrency: u32,
}

impl Config {
    /// The permit pool these settings ask for, or `None` where they allow no
    /// inference at all (a capacity of zero).
    pub fn new_gate(&self) -> (r: Option<Gate>)
        ensures
            r is Some <==> self.concurrency >= 1,
            r matches Some(g) ==> g.wf() && g@ == (GateState {
                capacity: self.concurrency as nat,
                held: 0,
                waiting: Seq::empty(),
                closed: false,
            }),
    {
        if self.concurrency == 0 {
            None
        } else {
            Some(Gate::new(self.concurrency as u64))
        }
    }
}

} // verus!
