//! Engine-level laws: what the transitions guarantee for every state.
//!
//! Each proof function states one guarantee of the engine over its abstract
//! model, so the statements compose with the contracts of
//! [`crate::detector::PortSequenceDetector`], whose operations are exactly
//! these transitions.

use vstd::prelude::*;

use crate::matching::ends_with;
use crate::matching::first_match;
use crate::matching::lemma_first_match_is_earliest;
use crate::model::EngineModel;
use crate::model::check_step;
use crate::model::record_step;
use crate::model::rule_ports;

verus! {

/// Recording a port that occurs in no rule's sequence is a complete no-op,
/// for every client and every state: the state is exactly unchanged and no
/// match is reported. In particular a client the engine has never tracked
/// still has no entry afterwards.
pub proof fn lemma_irrelevant_port_is_noop(m: EngineModel, c: Seq<char>, port: i32, now: u64)
    requires
        m.wf(),
        forall|i: int| 0 <= i < m.rules.len() ==> !m.rules[i].contains(port),
    ensures
        record_step(m, c, port, now).0 == m,
        record_step(m, c, port, now).1 is None,
        !m.seqs.contains_key(c) ==> !record_step(m, c, port, now).0.seqs.contains_key(c),
{
    assert(!rule_ports(m.rules).contains(port));
}

/// Recording a relevant port for a client the engine has never tracked
/// creates a one-element sequence holding exactly that port, and anchors the
/// client's window at the time of this first hit. Excluded are the ports
/// that complete a rule by themselves (the match check would clear the
/// sequence again within the same call).
pub proof fn lemma_first_hit_starts_tracking(m: EngineModel, c: Seq<char>, port: i32, now: u64)
    requires
        m.relevant.contains(port),
        !m.seqs.contains_key(c),
        !m.starts.contains_key(c),
        first_match(m.rules, seq![port]) is None,
    ensures
        record_step(m, c, port, now).0.seqs.contains_key(c),
        record_step(m, c, port, now).0.seqs[c] == seq![port],
        record_step(m, c, port, now).0.starts[c] == now,
        record_step(m, c, port, now).1 is None,
{
    let hits1 = m.hits_of(c).push(port);
    assert(hits1 =~= seq![port]);
}

/// A recorded relevant port whose arrival makes the client's sequence end
/// with some whole rule triggers a match on that very call, and the client's
/// sequence is empty immediately afterwards. (A rule's sequence is non-empty
/// by configuration; an empty one would match idle clients vacuously.)
pub proof fn lemma_completed_suffix_matches(m: EngineModel, c: Seq<char>, port: i32, now: u64)
    requires
        m.wf(),
        exists|i: int|
            0 <= i < m.rules.len() && m.rules[i].len() > 0 && ends_with(
                m.hits_of(c).push(port),
                m.rules[i],
            ),
    ensures
        record_step(m, c, port, now).1 is Some,
        record_step(m, c, port, now).0.seqs.contains_key(c),
        record_step(m, c, port, now).0.seqs[c] == Seq::<i32>::empty(),
{
    let hits1 = m.hits_of(c).push(port);
    let i = choose|i: int|
        0 <= i < m.rules.len() && m.rules[i].len() > 0 && ends_with(hits1, m.rules[i]);
    let rule = m.rules[i];
    assert(rule[rule.len() - 1] == hits1.subrange(
        hits1.len() - rule.len(),
        hits1.len() as int,
    )[rule.len() - 1]);
    assert(rule[rule.len() - 1] == hits1[hits1.len() - 1] == port);
    assert(rule.contains(port));
    assert(rule_ports(m.rules).contains(port));
    let m1 = record_step(m, c, port, now).0;
    lemma_first_match_is_earliest(m.rules, hits1);
    assert(first_match(m.rules, hits1) is Some);
}

/// When the window anchored at a client's first hit has been exceeded and no
/// rule matches its sequence, the next match check clears the sequence and
/// removes the start time in one step; and the next relevant observation,
/// whenever it comes, anchors a fresh window at its own time.
pub proof fn lemma_timeout_expires_cycle(
    m: EngineModel,
    c: Seq<char>,
    now: u64,
    port: i32,
    now2: u64,
)
    requires
        m.seqs.contains_key(c),
        m.seqs[c].len() > 0,
        forall|i: int| 0 <= i < m.rules.len() ==> !ends_with(m.seqs[c], m.rules[i]),
        m.starts.contains_key(c),
        now - m.starts[c] > m.timeout,
        m.relevant.contains(port),
    ensures
        check_step(m, c, now).1 is None,
        check_step(m, c, now).0.seqs[c] == Seq::<i32>::empty(),
        !check_step(m, c, now).0.starts.contains_key(c),
        record_step(check_step(m, c, now).0, c, port, now2).0.starts[c] == now2,
{
    lemma_first_match_is_earliest(m.rules, m.seqs[c]);
    assert(first_match(m.rules, m.seqs[c]) is None);
    let m1 = check_step(m, c, now).0;
    let hits2 = m1.hits_of(c).push(port);
    assert(hits2.len() == 1);
}

/// When a tracked client's sequence ends with more than one rule, the match
/// check reports the rule earliest in configuration order: the reported
/// index is never past any matching rule.
pub proof fn lemma_earliest_rule_wins(m: EngineModel, c: Seq<char>, now: u64, i: int)
    requires
        m.seqs.contains_key(c),
        m.seqs[c].len() > 0,
        0 <= i < m.rules.len(),
        ends_with(m.seqs[c], m.rules[i]),
    ensures
        check_step(m, c, now).1 is Some,
        check_step(m, c, now).1->0 <= i,
        ends_with(m.seqs[c], m.rules[check_step(m, c, now).1->0]),
{
    lemma_first_match_is_earliest(m.rules, m.seqs[c]);
}

} // verus!
