//! Configuration consumed by the detector at construction time.

use vstd::prelude::*;

verus! {

/// One knock rule: a human-readable name, the ordered list of ports that must
/// be touched (as a contiguous suffix of the client's recorded hits), and the
/// command an external dispatcher runs when the rule matches.
pub struct Rule {
    pub name: String,
    pub sequence: Vec<i32>,
    pub command: String,
}

/// The engine's configuration: the capture interface the surrounding system
/// listens on, the per-client window in whole seconds, and the rules in
/// priority order (the earliest matching rule wins).
pub struct Config {
    pub interface: String,
    pub timeout: u64,
    pub rules: Vec<Rule>,
}

/// The port sequences of `rules`, in rule order.
pub open spec fn rule_sequences(rules: Seq<Rule>) -> Seq<Seq<i32>> {
    Seq::new(rules.len(), |i: int| rules[i].sequence@)
}

} // verus!
