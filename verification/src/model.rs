//! Abstract state of the detector and its two transitions.
//!
//! The executable engine's view is an [`EngineModel`]; its operations are
//! specified as pure transitions on that model, so every contract pins down
//! both the value returned and the whole successor state.

use vstd::prelude::*;

use crate::matching::first_match;

verus! {

/// The detector's abstract state.
///
/// `rules` and `relevant` are fixed at construction; `seqs` maps each tracked
/// client to its recorded relevant ports in arrival order, and `starts` maps a
/// client to the wall-clock second of the first hit of its current tracking
/// cycle. A client may be present in `seqs` with an empty sequence (after a
/// match or an expiry) and absent from `starts` (after an expiry): both read
/// as "idle, tracking restarts on the next relevant hit".
#[verifier::ext_equal]
pub ghost struct EngineModel {
    pub timeout: u64,
    pub rules: Seq<Seq<i32>>,
    pub relevant: Set<i32>,
    pub seqs: Map<Seq<char>, Seq<i32>>,
    pub starts: Map<Seq<char>, u64>,
}

/// Every port that occurs in some rule's sequence.
pub open spec fn rule_ports(rules: Seq<Seq<i32>>) -> Set<i32> {
    Set::new(|p: i32| exists|i: int| 0 <= i < rules.len() && rules[i].contains(p))
}

impl EngineModel {
    /// Well-formed: the relevant-port set is exactly the union of the rules'
    /// ports. Construction establishes this and no transition touches either
    /// side, so it holds of every reachable state.
    pub open spec fn wf(self) -> bool {
        self.relevant == rule_ports(self.rules)
    }

    /// The ports recorded for client `c`; an untracked client reads as empty.
    pub open spec fn hits_of(self, c: Seq<char>) -> Seq<i32> {
        if self.seqs.contains_key(c) {
            self.seqs[c]
        } else {
            Seq::empty()
        }
    }
}

/// The match-check transition for client `c` at wall-clock second `now`:
/// the successor state and the index of the matched rule, if any.
///
/// An idle client (untracked or with an empty sequence) is left untouched.
/// Otherwise the first rule, in configuration order, that the client's
/// sequence ends with is reported and the sequence is cleared; the start
/// time is deliberately left in place on a match, exactly as when tracking
/// began. When no rule matches and the window anchored at the client's first
/// hit has been exceeded, the sequence is cleared and the start time removed,
/// so the next relevant hit opens a fresh window. In every other case the
/// state is unchanged.
pub open spec fn check_step(m: EngineModel, c: Seq<char>, now: u64) -> (EngineModel, Option<
    int,
>) {
    let hits = m.hits_of(c);
    if hits.len() == 0 {
        (m, None)
    } else {
        match first_match(m.rules, hits) {
            Some(i) => (EngineModel { seqs: m.seqs.insert(c, Seq::empty()), ..m }, Some(i)),
            None => {
                if m.starts.contains_key(c) && now - m.starts[c] > m.timeout {
                    (
                        EngineModel {
                            seqs: m.seqs.insert(c, Seq::empty()),
                            starts: m.starts.remove(c),
                            ..m
                        },
                        None,
                    )
                } else {
                    (m, None)
                }
            },
        }
    }
}

/// The record transition for client `c` touching `port` at wall-clock second
/// `now`: the successor state and the index of the matched rule, if any.
///
/// A port in no rule is ignored outright: the state is exactly unchanged.
/// A relevant port is appended to the client's sequence; the client's start
/// time is set to `now` only if it has none (the window is anchored to the
/// first hit of the cycle, not the last); and the match check runs at once on
/// the result.
pub open spec fn record_step(m: EngineModel, c: Seq<char>, port: i32, now: u64) -> (EngineModel, Option<
    int,
>) {
    if !m.relevant.contains(port) {
        (m, None)
    } else {
        let m1 = EngineModel {
            seqs: m.seqs.insert(c, m.hits_of(c).push(port)),
            starts: if m.starts.contains_key(c) {
                m.starts
            } else {
                m.starts.insert(c, now)
            },
            ..m
        };
        check_step(m1, c, now)
    }
}

/// The reported rule index agrees with the model's: both absent, or equal.
pub open spec fn idx_agrees(r: Option<usize>, s: Option<int>) -> bool {
    match (r, s) {
        (Some(a), Some(b)) => a as int == b,
        (None, None) => true,
        _ => false,
    }
}

} // verus!
