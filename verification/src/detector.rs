//! The executable sequence engine.

use vstd::prelude::*;

use vstd::hash_map::StringHashMap;
use vstd::hash_set::HashSetWithView;

use crate::config::Config;
use crate::config::rule_sequences;
use crate::matching::find_first_match;
use crate::matching::rule_views;
use crate::model::EngineModel;
use crate::model::check_step;
use crate::model::idx_agrees;
use crate::model::record_step;
use crate::model::rule_ports;

verus! {

broadcast use vstd::std_specs::hash::group_hash_axioms, vstd::string::group_string_axioms;

/// The sequence engine: per-client knock tracking with suffix matching
/// against a fixed rule set and timeout-based expiry.
pub struct PortSequenceDetector {
    timeout: u64,
    sequence_set: HashSetWithView<i32>,
    sequence_rules: Vec<Vec<i32>>,
    client_sequences: StringHashMap<Vec<i32>>,
    client_timeout: StringHashMap<u64>,
}

impl View for PortSequenceDetector {
    type V = EngineModel;

    closed spec fn view(&self) -> EngineModel {
        EngineModel {
            timeout: self.timeout,
            rules: rule_views(self.sequence_rules@),
            relevant: self.sequence_set@,
            seqs: Map::new(
                |c: Seq<char>| self.client_sequences@.contains_key(c),
                |c: Seq<char>| self.client_sequences@[c]@,
            ),
            starts: self.client_timeout@,
        }
    }
}

/// Current wall-clock time in whole seconds since the Unix epoch.
///
/// Relies on `std::time::SystemTime::now`; the value depends on the machine's
/// clock, so nothing is promised of it. Aborts the process if the clock reads
/// earlier than the epoch: an unreadable clock must not silently become a
/// zero timestamp, which would distort every client's window.
#[verifier::external_body]
fn now_seconds() -> u64 {
    std::time::SystemTime::now().duration_since(std::time::UNIX_EPOCH).unwrap().as_secs()
}

/// A copy of a port list.
fn copy_ports(v: &Vec<i32>) -> (r: Vec<i32>)
    ensures
        r@ == v@,
{
    let mut r: Vec<i32> = Vec::new();
    let mut i: usize = 0;
    while i < v.len()
        invariant
            i <= v.len(),
            r@ == v@.subrange(0, i as int),
        decreases v.len() - i,
    {
        r.push(v[i]);
        i += 1;
    }
    proof {
        assert(v@.subrange(0, v@.len() as int) =~= v@);
    }
    r
}

impl PortSequenceDetector {
    /// Builds an engine from a configuration: the rules' port sequences in
    /// rule order, the set of every port any rule mentions, the timeout, and
    /// no tracked client. An empty rule set is legal: no port is ever
    /// relevant and no match ever occurs.
    pub fn new(config: Config) -> (r: PortSequenceDetector)
        ensures
            r@.timeout == config.timeout,
            r@.rules == rule_sequences(config.rules@),
            r@.relevant == rule_ports(r@.rules),
            r@.seqs == Map::<Seq<char>, Seq<i32>>::empty(),
            r@.starts == Map::<Seq<char>, u64>::empty(),
    {
        let mut sequence_rules: Vec<Vec<i32>> = Vec::new();
        let mut i: usize = 0;
        while i < config.rules.len()
            invariant
                i <= config.rules.len(),
                sequence_rules@.len() == i,
                forall|j: int| 0 <= j < i ==> sequence_rules@[j]@ == config.rules@[j].sequence@,
            decreases config.rules.len() - i,
        {
            sequence_rules.push(copy_ports(&config.rules[i].sequence));
            i += 1;
        }
        let ghost rv = rule_views(sequence_rules@);
        proof {
            assert(rv =~= rule_sequences(config.rules@));
        }
        let mut sequence_set: HashSetWithView<i32> = HashSetWithView::new();
        let mut a: usize = 0;
        while a < sequence_rules.len()
            invariant
                a <= sequence_rules.len(),
                rv == rule_views(sequence_rules@),
                forall|p: i32|
                    sequence_set@.contains(p) <==> exists|x: int, y: int|
                        0 <= x < a && 0 <= y < rv[x].len() && rv[x][y] == p,
            decreases sequence_rules.len() - a,
        {
            let mut b: usize = 0;
            while b < sequence_rules[a].len()
                invariant
                    a < sequence_rules.len(),
                    b <= sequence_rules@[a as int]@.len(),
                    rv == rule_views(sequence_rules@),
                    forall|p: i32|
                        sequence_set@.contains(p) <==> (exists|x: int, y: int|
                            0 <= x < a && 0 <= y < rv[x].len() && rv[x][y] == p) || (exists|y: int|
                            0 <= y < b && rv[a as int][y] == p),
                decreases sequence_rules@[a as int]@.len() - b,
            {
                sequence_set.insert(sequence_rules[a][b]);
                proof {
                    let p0 = rv[a as int][b as int];
                    assert forall|p: i32|
                        sequence_set@.contains(p) <==> ((exists|x: int, y: int|
                            0 <= x < a && 0 <= y < rv[x].len() && rv[x][y] == p) || (exists|y: int|
                            0 <= y < b + 1 && rv[a as int][y] == p)) by {
                        if sequence_set@.contains(p) && p == p0 {
                            assert(0 <= (b as int) && (b as int) < b + 1 && rv[a as int][b
                                as int] == p);
                        }
                        if exists|y: int| 0 <= y < b + 1 && rv[a as int][y] == p {
                            let y = choose|y: int| 0 <= y < b + 1 && rv[a as int][y] == p;
                            if y == b as int {
                                assert(p == p0);
                            } else {
                                assert(0 <= y < b && rv[a as int][y] == p);
                            }
                        }
                    }
                }
                b += 1;
            }
            a += 1;
        }
        proof {
            assert forall|p: i32| sequence_set@.contains(p) <==> rule_ports(rv).contains(p) by {
                if exists|x: int, y: int|
                    0 <= x < rv.len() && 0 <= y < rv[x].len() && rv[x][y] == p {
                    let (x, y) = choose|x: int, y: int|
                        0 <= x < rv.len() && 0 <= y < rv[x].len() && rv[x][y] == p;
                    assert(rv[x].contains(p));
                }
                if exists|x: int| 0 <= x < rv.len() && rv[x].contains(p) {
                    let x = choose|x: int| 0 <= x < rv.len() && rv[x].contains(p);
                    let y = choose|y: int| 0 <= y < rv[x].len() && rv[x][y] == p;
                    assert(0 <= x < rv.len() && 0 <= y < rv[x].len() && rv[x][y] == p);
                }
            }
            assert(sequence_set@ =~= rule_ports(rv));
        }
        let r = PortSequenceDetector {
            timeout: config.timeout,
            sequence_set,
            sequence_rules,
            client_sequences: StringHashMap::new(),
            client_timeout: StringHashMap::new(),
        };
        proof {
            assert(r@.seqs =~= Map::<Seq<char>, Seq<i32>>::empty());
        }
        r
    }

    /// Runs the match check for `client_ip` as of wall-clock second `now`:
    /// exactly the [`check_step`] transition on the engine's state, returning
    /// the index, in configuration order, of the matched rule, if any.
    pub fn check_at(&mut self, client_ip: &str, now: u64) -> (r: Option<usize>)
        ensures
            final(self)@ == check_step(old(self)@, client_ip@, now).0,
            idx_agrees(r, check_step(old(self)@, client_ip@, now).1),
    {
        let matched: Option<usize>;
        match self.client_sequences.get(client_ip) {
            None => {
                return None;
            },
            Some(hits) => {
                if hits.len() == 0 {
                    return None;
                }
                matched = find_first_match(&self.sequence_rules, hits);
            },
        }
        match matched {
            Some(i) => {
                self.client_sequences.insert(client_ip.to_string(), Vec::new());
                proof {
                    assert(self@.seqs =~= old(self)@.seqs.insert(client_ip@, Seq::empty()));
                    assert(self@ =~= check_step(old(self)@, client_ip@, now).0);
                }
                Some(i)
            },
            None => {
                let expired: bool;
                match self.client_timeout.get(client_ip) {
                    Some(st) => {
                        expired = now >= *st && now - *st > self.timeout;
                    },
                    None => {
                        expired = false;
                    },
                }
                if expired {
                    self.client_sequences.insert(client_ip.to_string(), Vec::new());
                    self.client_timeout.remove(client_ip);
                    proof {
                        assert(self@.seqs =~= old(self)@.seqs.insert(client_ip@, Seq::empty()));
                        assert(self@ =~= check_step(old(self)@, client_ip@, now).0);
                    }
                }
                None
            },
        }
    }

    /// Records one observation for `client_ip` as of wall-clock second
    /// `now`: exactly the [`record_step`] transition on the engine's state.
    /// A port in no rule leaves the engine untouched; a relevant port is
    /// appended to the client's sequence, starts the client's window if none
    /// is running, and the match check runs at once. Returns the index, in
    /// configuration order, of the matched rule, if any.
    pub fn record_at(&mut self, client_ip: String, sequence: i32, now: u64) -> (r: Option<usize>)
        ensures
            final(self)@ == record_step(old(self)@, client_ip@, sequence, now).0,
            idx_agrees(r, record_step(old(self)@, client_ip@, sequence, now).1),
    {
        if !self.sequence_set.contains(&sequence) {
            return None;
        }
        let mut hits: Vec<i32> = match self.client_sequences.get(client_ip.as_str()) {
            Some(v) => copy_ports(v),
            None => Vec::new(),
        };
        hits.push(sequence);
        self.client_sequences.insert(client_ip.clone(), hits);
        if !self.client_timeout.contains_key(client_ip.as_str()) {
            self.client_timeout.insert(client_ip.clone(), now);
        }
        proof {
            assert(self@.seqs =~= old(self)@.seqs.insert(
                client_ip@,
                old(self)@.hits_of(client_ip@).push(sequence),
            ));
            assert(self@ =~= EngineModel {
                seqs: old(self)@.seqs.insert(
                    client_ip@,
                    old(self)@.hits_of(client_ip@).push(sequence),
                ),
                starts: if old(self)@.starts.contains_key(client_ip@) {
                    old(self)@.starts
                } else {
                    old(self)@.starts.insert(client_ip@, now)
                },
                ..old(self)@
            });
        }
        self.check_at(client_ip.as_str(), now)
    }

    /// Records one observation for `client_ip` at the current wall-clock
    /// time: [`Self::record_at`] at the second the system clock reads now.
    /// Returns the index, in configuration order, of the matched rule, if
    /// any; a port in no rule always leaves the engine exactly unchanged.
    pub fn add_sequence(&mut self, client_ip: String, sequence: i32) -> (r: Option<usize>)
        ensures
            exists|now: u64|
                #![auto]
                final(self)@ == record_step(old(self)@, client_ip@, sequence, now).0 && idx_agrees(
                    r,
                    record_step(old(self)@, client_ip@, sequence, now).1,
                ),
            !old(self)@.relevant.contains(sequence) ==> final(self)@ == old(self)@ && r is None,
    {
        let now = now_seconds();
        let r = self.record_at(client_ip, sequence, now);
        proof {
            assert(final(self)@ == record_step(old(self)@, client_ip@, sequence, now).0
                && idx_agrees(r, record_step(old(self)@, client_ip@, sequence, now).1));
        }
        r
    }

    /// Runs the match check for `client_ip` at the current wall-clock time:
    /// [`Self::check_at`] at the second the system clock reads now. Returns
    /// whether some rule matched.
    pub fn match_sequence(&mut self, client_ip: &str) -> (r: bool)
        ensures
            exists|now: u64|
                #![auto]
                final(self)@ == check_step(old(self)@, client_ip@, now).0 && r == (check_step(
                    old(self)@,
                    client_ip@,
                    now,
                ).1 is Some),
    {
        let now = now_seconds();
        let m = self.check_at(client_ip, now);
        proof {
            assert(final(self)@ == check_step(old(self)@, client_ip@, now).0 && m is Some
                == (check_step(old(self)@, client_ip@, now).1 is Some));
        }
        m.is_some()
    }

    /// The per-client window, in whole seconds.
    pub fn timeout_seconds(&self) -> (r: u64)
        ensures
            r == self@.timeout,
    {
        self.timeout
    }

    /// How many rules the engine was configured with.
    pub fn rule_count(&self) -> (r: usize)
        ensures
            r == self@.rules.len(),
    {
        self.sequence_rules.len()
    }

    /// How many distinct ports occur across all rules' sequences.
    pub fn relevant_port_count(&self) -> (r: usize)
        ensures
            r == self@.relevant.len(),
    {
        self.sequence_set.len()
    }

    /// Whether `port` occurs in some rule's sequence; only such ports ever
    /// touch per-client state.
    pub fn is_relevant_port(&self, port: i32) -> (r: bool)
        ensures
            r == self@.relevant.contains(port),
    {
        self.sequence_set.contains(&port)
    }

    /// A copy of the ports recorded so far for `client_ip`, or `None` for a
    /// client that no observation has ever been recorded for.
    pub fn client_sequence(&self, client_ip: &str) -> (r: Option<Vec<i32>>)
        ensures
            match r {
                Some(v) => self@.seqs.contains_key(client_ip@) && v@ == self@.seqs[client_ip@],
                None => !self@.seqs.contains_key(client_ip@),
            },
    {
        match self.client_sequences.get(client_ip) {
            Some(v) => Some(copy_ports(v)),
            None => None,
        }
    }

    /// The wall-clock second of the first hit of `client_ip`'s current
    /// tracking cycle, or `None` when no window is running.
    pub fn client_start_time(&self, client_ip: &str) -> (r: Option<u64>)
        ensures
            match r {
                Some(t) => self@.starts.contains_key(client_ip@) && t == self@.starts[client_ip@],
                None => !self@.starts.contains_key(client_ip@),
            },
    {
        match self.client_timeout.get(client_ip) {
            Some(t) => Some(*t),
            None => None,
        }
    }
}

} // verus!
