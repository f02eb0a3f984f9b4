//! Bookkeeping of MCP config parses: which parse of each config source is
//! current (so a superseded parse's late completion is ignored), which sources
//! the initial global scan still awaits, and the one-time signal that the
//! initial global scan has settled.

use vstd::prelude::*;
use crate::mcp::MCPProvider;
use crate::text::{str_equal, string_from};

verus! {

/// A config source: a config file path and the provider whose format it has.
pub type SourceKey = (Seq<char>, MCPProvider);

/// What the tracker knows of one source.
pub struct SourceRecord {
    pub path: String,
    pub provider: MCPProvider,
    /// Generation of the parse currently in flight, if any.
    pub in_flight: Option<u64>,
    /// Whether the initial global scan still awaits this source.
    pub pending: bool,
}

/// The key of a record.
pub open spec fn record_key(r: SourceRecord) -> SourceKey {
    (r.path@, r.provider)
}

/// The state of a source.
pub struct SourceState {
    pub in_flight: Option<u64>,
    pub pending: bool,
}

/// The state of `key` in the records (the first record with that key; a source
/// without a record has no parse in flight and is not awaited).
pub open spec fn source_state(records: Seq<SourceRecord>, key: SourceKey) -> SourceState
    decreases records.len(),
{
    if records.len() == 0 {
        SourceState { in_flight: None, pending: false }
    } else if record_key(records[0]) == key {
        SourceState { in_flight: records[0].in_flight, pending: records[0].pending }
    } else {
        source_state(records.drop_first(), key)
    }
}

/// Where a parse whose result is delivered came from.
#[derive(Clone, Copy, Debug, PartialEq, Eq, Structural)]
pub enum FileMCPScanOrigin {
    /// The source was awaited by the initial global scan.
    InitialGlobal,
    /// Any later read of the source.
    Incremental,
}

/// A parse scheduled for a source.
#[derive(Clone, Copy, Debug, PartialEq, Eq, Structural)]
pub struct ScheduledParse {
    /// The generation the new parse claims; its completion must present it.
    pub generation: u64,
    /// The generation of the parse it supersedes, which the host must abort.
    pub superseded: Option<u64>,
}

/// What a parse completion amounts to.
#[derive(Clone, Copy, Debug, PartialEq, Eq, Structural)]
pub enum ParseSettlement {
    /// The parse was superseded or aborted: drop its result.
    Stale,
    /// The parse is the source's current one: deliver its result.
    Current {
        scan_origin: FileMCPScanOrigin,
        /// The initial global scan settled with this parse: signal it now.
        initial_scan_complete: bool,
    },
}

/// Parse bookkeeping of the MCP config watcher.
pub struct FileMCPParseTracker {
    records: Vec<SourceRecord>,
    next_parse_generation: u64,
    initial_global_scan_emitted: bool,
}

impl FileMCPParseTracker {
    #[verifier::type_invariant]
    spec fn well_formed(&self) -> bool {
        &&& forall|i: int, j: int| 0 <= i < j < self.records@.len()
            ==> record_key(#[trigger] self.records@[i]) != record_key(#[trigger] self.records@[j])
        &&& forall|i: int| 0 <= i < self.records@.len()
            ==> ((#[trigger] self.records@[i]).in_flight matches Some(g) ==> g < self.next_parse_generation)
    }

    /// The state of a source.
    pub closed spec fn state(&self, key: SourceKey) -> SourceState {
        source_state(self.records@, key)
    }

    /// The generation the next scheduled parse claims.
    pub closed spec fn next_generation(&self) -> u64 {
        self.next_parse_generation
    }

    /// Whether the initial global scan has been signalled as settled.
    pub closed spec fn emitted(&self) -> bool {
        self.initial_global_scan_emitted
    }

    /// No source is awaited by the initial global scan.
    pub open spec fn nothing_pending(&self) -> bool {
        forall|k: SourceKey| !(#[trigger] self.state(k)).pending
    }

    /// A tracker that knows no source yet: no parse in flight, nothing awaited.
    pub fn new() -> (t: Self)
        ensures
            forall|k: SourceKey| (#[trigger] t.state(k)) == (SourceState { in_flight: None, pending: false }),
            t.next_generation() == 0,
            !t.emitted(),
    {
        FileMCPParseTracker { records: Vec::new(), next_parse_generation: 0, initial_global_scan_emitted: false }
    }

    /// The generation the next scheduled parse claims.
    pub fn next_parse_generation(&self) -> (g: u64)
        ensures
            g == self.next_generation(),
    {
        self.next_parse_generation
    }

    fn find(&self, path: &str, provider: MCPProvider) -> (i: Option<usize>)
        ensures
            match i {
                Some(i) => i < self.records@.len() && record_key(self.records@[i as int]) == (path@, provider)
                    && self.state((path@, provider)) == (SourceState {
                        in_flight: self.records@[i as int].in_flight,
                        pending: self.records@[i as int].pending,
                    }),
                None => (forall|j: int| 0 <= j < self.records@.len() ==> record_key(#[trigger] self.records@[j]) != (path@, provider))
                    && self.state((path@, provider)) == (SourceState { in_flight: None, pending: false }),
            },
    {
        let mut i: usize = 0;
        assert(self.records@.skip(0) =~= self.records@);
        while i < self.records.len()
            invariant
                i <= self.records@.len(),
                forall|j: int| 0 <= j < i ==> record_key(#[trigger] self.records@[j]) != (path@, provider),
                source_state(self.records@, (path@, provider)) == source_state(self.records@.skip(i as int), (path@, provider)),
            decreases self.records.len() - i,
        {
            assert(self.records@.skip(i as int).drop_first() =~= self.records@.skip(i + 1));
            if self.records[i].provider == provider && str_equal(self.records[i].path.as_str(), path) {
                return Some(i);
            }
            i = i + 1;
        }
        proof { lemma_state_absent(self.records@, (path@, provider)); }
        None
    }

    /// Adds an absent source's record.
    fn add_source(&mut self, path: &str, provider: MCPProvider, in_flight: Option<u64>, pending: bool)
        requires
            forall|j: int| 0 <= j < old(self).records@.len() ==> record_key(#[trigger] old(self).records@[j]) != (path@, provider),
            in_flight matches Some(g) ==> g < old(self).next_parse_generation,
        ensures
            final(self).state((path@, provider)) == (SourceState { in_flight, pending }),
            forall|k: SourceKey| k != (path@, provider) ==> #[trigger] final(self).state(k) == old(self).state(k),
            final(self).next_parse_generation == old(self).next_parse_generation,
            final(self).initial_global_scan_emitted == old(self).initial_global_scan_emitted,
    {
        proof { use_type_invariant(&*self); }
        let ghost old_records = self.records@;
        let mut records: Vec<SourceRecord> = Vec::new();
        std::mem::swap(&mut records, &mut self.records);
        let rec = SourceRecord { path: string_from(path), provider, in_flight, pending };
        let ghost new_rec = rec;
        records.push(rec);
        proof {
            lemma_state_after_push(old_records, new_rec);
            assert forall|a: int, b: int| 0 <= a < b < records@.len()
                implies record_key(#[trigger] records@[a]) != record_key(#[trigger] records@[b]) by {
                if b < old_records.len() {
                    assert(records@[a] == old_records[a]);
                    assert(records@[b] == old_records[b]);
                } else {
                    assert(records@[a] == old_records[a]);
                    assert(records@[b] == new_rec);
                }
            }
        }
        self.records = records;
    }

    /// Sets the state of the source recorded at `i`.
    fn set_source(&mut self, i: usize, in_flight: Option<u64>, pending: bool)
        requires
            i < old(self).records@.len(),
            in_flight matches Some(g) ==> g < old(self).next_parse_generation,
        ensures
            final(self).state(record_key(old(self).records@[i as int])) == (SourceState { in_flight, pending }),
            forall|k: SourceKey| k != record_key(old(self).records@[i as int]) ==> #[trigger] final(self).state(k) == old(self).state(k),
            final(self).next_parse_generation == old(self).next_parse_generation,
            final(self).initial_global_scan_emitted == old(self).initial_global_scan_emitted,
    {
        proof { use_type_invariant(&*self); }
        let ghost old_records = self.records@;
        let mut records: Vec<SourceRecord> = Vec::new();
        std::mem::swap(&mut records, &mut self.records);
        let path = string_from(records[i].path.as_str());
        let provider = records[i].provider;
        let rec = SourceRecord { path, provider, in_flight, pending };
        let ghost new_rec = rec;
        records.set(i, rec);
        proof {
            lemma_state_after_set(old_records, i as int, new_rec);
            assert forall|a: int, b: int| 0 <= a < b < records@.len()
                implies record_key(#[trigger] records@[a]) != record_key(#[trigger] records@[b]) by {
                assert(record_key(records@[a]) == record_key(old_records[a]));
                assert(record_key(records@[b]) == record_key(old_records[b]));
            }
        }
        self.records = records;
    }

    /// Records that the initial global scan awaits the source.
    pub fn await_in_initial_scan(&mut self, path: &str, provider: MCPProvider)
        ensures
            final(self).state((path@, provider)) == (SourceState { pending: true, ..old(self).state((path@, provider)) }),
            forall|k: SourceKey| k != (path@, provider) ==> #[trigger] final(self).state(k) == old(self).state(k),
            final(self).next_generation() == old(self).next_generation(),
            final(self).emitted() == old(self).emitted(),
    {
        proof { use_type_invariant(&*self); }
        match self.find(path, provider) {
            Some(i) => {
                let g = self.records[i].in_flight;
                self.set_source(i, g, true);
            },
            None => {
                self.add_source(path, provider, None, true);
            },
        }
    }

    /// Schedules a parse of the source: it claims a fresh generation and
    /// supersedes the parse in flight, if any. Whether the initial global scan
    /// awaits the source is unchanged, so a replacement parse inherits that
    /// obligation.
    pub fn begin_parse(&mut self, path: &str, provider: MCPProvider) -> (p: ScheduledParse)
        requires
            old(self).next_generation() < u64::MAX,
        ensures
            p.generation == old(self).next_generation(),
            p.superseded == old(self).state((path@, provider)).in_flight,
            p.superseded matches Some(g) ==> g < p.generation,
            final(self).state((path@, provider)) == (SourceState {
                in_flight: Some(p.generation),
                pending: old(self).state((path@, provider)).pending,
            }),
            forall|k: SourceKey| k != (path@, provider) ==> #[trigger] final(self).state(k) == old(self).state(k),
            final(self).next_generation() == old(self).next_generation() + 1,
            final(self).emitted() == old(self).emitted(),
    {
        proof { use_type_invariant(&*self); }
        let generation = self.next_parse_generation;
        let found = self.find(path, provider);
        proof {
            if let Some(i) = found {
                lemma_in_flight_below_next(self, i as int);
            }
        }
        self.bump_generation();
        match found {
            Some(i) => {
                let superseded = self.records[i].in_flight;
                let pending = self.records[i].pending;
                self.set_source(i, Some(generation), pending);
                ScheduledParse { generation, superseded }
            },
            None => {
                self.add_source(path, provider, Some(generation), false);
                ScheduledParse { generation, superseded: None }
            },
        }
    }

    fn bump_generation(&mut self)
        requires
            old(self).next_parse_generation < u64::MAX,
        ensures
            final(self).next_parse_generation == old(self).next_parse_generation + 1,
            final(self).records@ == old(self).records@,
            final(self).initial_global_scan_emitted == old(self).initial_global_scan_emitted,
            forall|k: SourceKey| #[trigger] final(self).state(k) == old(self).state(k),
    {
        proof { use_type_invariant(&*self); }
        self.next_parse_generation = self.next_parse_generation + 1;
    }

    /// Claims the source for a completing parse of `generation`: succeeds, and
    /// clears the in-flight record, only when that parse is still the source's
    /// current one; a superseded parse changes nothing.
    pub fn take_current_in_flight_parse(&mut self, path: &str, provider: MCPProvider, generation: u64) -> (claimed: bool)
        ensures
            claimed == (old(self).state((path@, provider)).in_flight == Some(generation)),
            claimed ==> final(self).state((path@, provider)) == (SourceState {
                in_flight: None,
                pending: old(self).state((path@, provider)).pending,
            }),
            !claimed ==> final(self).state((path@, provider)) == old(self).state((path@, provider)),
            forall|k: SourceKey| k != (path@, provider) ==> #[trigger] final(self).state(k) == old(self).state(k),
            final(self).next_generation() == old(self).next_generation(),
            final(self).emitted() == old(self).emitted(),
    {
        proof { use_type_invariant(&*self); }
        match self.find(path, provider) {
            Some(i) => {
                if self.records[i].in_flight == Some(generation) {
                    let pending = self.records[i].pending;
                    self.set_source(i, None, pending);
                    true
                } else {
                    false
                }
            },
            None => false,
        }
    }

    /// Signals the initial global scan's completion once: true exactly when it
    /// has not been signalled yet and no source is awaited any more.
    pub fn maybe_emit_initial_global_scan_complete(&mut self) -> (emit: bool)
        ensures
            emit == (!old(self).emitted() && old(self).nothing_pending()),
            final(self).emitted() == (old(self).emitted() || emit),
            forall|k: SourceKey| #[trigger] final(self).state(k) == old(self).state(k),
            final(self).next_generation() == old(self).next_generation(),
    {
        proof { use_type_invariant(&*self); }
        if self.initial_global_scan_emitted {
            return false;
        }
        let mut i: usize = 0;
        while i < self.records.len()
            invariant
                i <= self.records@.len(),
                forall|j: int| 0 <= j < i ==> !(#[trigger] self.records@[j]).pending,
            decreases self.records.len() - i,
        {
            if self.records[i].pending {
                proof {
                    use_type_invariant(&*self);
                    lemma_state_of_record(self.records@, i as int);
                    assert(self.state(record_key(self.records@[i as int])).pending);
                }
                return false;
            }
            i = i + 1;
        }
        proof {
            assert forall|k: SourceKey| !(#[trigger] self.state(k)).pending by {
                if self.state(k).pending {
                    lemma_state_pending_has_record(self.records@, k);
                }
            }
        }
        self.initial_global_scan_emitted = true;
        true
    }

    /// Settles a completing parse of `generation`: a superseded parse is
    /// stale; the current one is delivered, attributed to the initial global
    /// scan when the scan awaited the source, and settles that obligation.
    pub fn finish_parse(&mut self, path: &str, provider: MCPProvider, generation: u64) -> (s: ParseSettlement)
        ensures
            old(self).state((path@, provider)).in_flight != Some(generation) ==> s == ParseSettlement::Stale
                && forall|k: SourceKey| #[trigger] final(self).state(k) == old(self).state(k),
            old(self).state((path@, provider)).in_flight == Some(generation) ==> {
                &&& final(self).state((path@, provider)) == (SourceState { in_flight: None, pending: false })
                &&& forall|k: SourceKey| k != (path@, provider) ==> #[trigger] final(self).state(k) == old(self).state(k)
                &&& s matches ParseSettlement::Current { scan_origin, initial_scan_complete }
                    && scan_origin == (if old(self).state((path@, provider)).pending {
                        FileMCPScanOrigin::InitialGlobal
                    } else {
                        FileMCPScanOrigin::Incremental
                    })
                    && initial_scan_complete == (!old(self).emitted() && final(self).nothing_pending())
            },
            final(self).emitted() == (old(self).emitted() || s matches ParseSettlement::Current { initial_scan_complete: true, .. }),
            final(self).next_generation() == old(self).next_generation(),
    {
        proof { use_type_invariant(&*self); }
        let was_pending = self.is_pending(path, provider);
        if !self.take_current_in_flight_parse(path, provider, generation) {
            return ParseSettlement::Stale;
        }
        self.settle(path, provider);
        let ghost settled = *self;
        let complete = self.maybe_emit_initial_global_scan_complete();
        proof { lemma_same_states_same_pending(settled, *self); }
        let scan_origin = if was_pending { FileMCPScanOrigin::InitialGlobal } else { FileMCPScanOrigin::Incremental };
        ParseSettlement::Current { scan_origin, initial_scan_complete: complete }
    }

    /// Marks the source as no longer awaited by the initial global scan.
    fn settle(&mut self, path: &str, provider: MCPProvider)
        ensures
            final(self).state((path@, provider)) == (SourceState { pending: false, ..old(self).state((path@, provider)) }),
            forall|k: SourceKey| k != (path@, provider) ==> #[trigger] final(self).state(k) == old(self).state(k),
            final(self).next_generation() == old(self).next_generation(),
            final(self).emitted() == old(self).emitted(),
    {
        proof { use_type_invariant(&*self); }
        match self.find(path, provider) {
            Some(i) => {
                let g = self.records[i].in_flight;
                proof {
                    lemma_in_flight_below_next(self, i as int);
                }
                self.set_source(i, g, false);
            },
            None => {},
        }
    }

    /// Whether the initial global scan awaits the source.
    pub fn is_pending(&self, path: &str, provider: MCPProvider) -> (b: bool)
        ensures
            b == self.state((path@, provider)).pending,
    {
        match self.find(path, provider) {
            Some(i) => self.records[i].pending,
            None => false,
        }
    }

    /// Whether a parse of the source is in flight.
    pub fn is_in_flight(&self, path: &str, provider: MCPProvider) -> (b: bool)
        ensures
            b == (self.state((path@, provider)).in_flight is Some),
    {
        match self.find(path, provider) {
            Some(i) => self.records[i].in_flight.is_some(),
            None => false,
        }
    }

    /// Drops the source's in-flight parse (its config changed or the watch
    /// ended) and returns its generation, whose task the host aborts. Whether
    /// the initial global scan awaits the source is unchanged.
    pub fn abort_config_parse(&mut self, path: &str, provider: MCPProvider) -> (aborted: Option<u64>)
        ensures
            aborted == old(self).state((path@, provider)).in_flight,
            final(self).state((path@, provider)) == (SourceState { in_flight: None, ..old(self).state((path@, provider)) }),
            forall|k: SourceKey| k != (path@, provider) ==> #[trigger] final(self).state(k) == old(self).state(k),
            final(self).next_generation() == old(self).next_generation(),
            final(self).emitted() == old(self).emitted(),
    {
        proof { use_type_invariant(&*self); }
        match self.find(path, provider) {
            Some(i) => {
                let g = self.records[i].in_flight;
                let pending = self.records[i].pending;
                self.set_source(i, None, pending);
                g
            },
            None => None,
        }
    }

    /// Drops the in-flight parse of a removed config: no replacement parse
    /// follows, so the removal itself settles the initial global scan's wait
    /// for the source. Returns the aborted generation and whether the initial
    /// global scan settled with it.
    pub fn abort_config_parse_for_removal(&mut self, path: &str, provider: MCPProvider) -> (r: (Option<u64>, bool))
        ensures
            r.0 == old(self).state((path@, provider)).in_flight,
            final(self).state((path@, provider)) == (SourceState { in_flight: None, pending: false }),
            forall|k: SourceKey| k != (path@, provider) ==> #[trigger] final(self).state(k) == old(self).state(k),
            r.1 == (!old(self).emitted() && final(self).nothing_pending()),
            final(self).emitted() == (old(self).emitted() || r.1),
            final(self).next_generation() == old(self).next_generation(),
    {
        let aborted = self.abort_config_parse(path, provider);
        self.settle(path, provider);
        let ghost settled = *self;
        let complete = self.maybe_emit_initial_global_scan_complete();
        proof { lemma_same_states_same_pending(settled, *self); }
        (aborted, complete)
    }

    /// Whether `k` is awaited by the initial global scan with no parse in flight.
    pub open spec fn is_stranded(&self, k: SourceKey) -> bool {
        self.state(k).pending && self.state(k).in_flight is None
    }

    /// The sources among `configs` that the initial global scan still awaits
    /// but that have no parse in flight, in the order of `configs`: those a
    /// failed directory watch left stranded, which the host parses directly.
    /// Already settled sources are left out, so none is read twice.
    pub fn stranded_sources(&self, configs: &[(MCPProvider, String)]) -> (stranded: Vec<(MCPProvider, String)>)
        ensures
            source_keys(stranded@) == source_keys(configs@).filter(|k: SourceKey| self.is_stranded(k)),
    {
        let ghost pred = |k: SourceKey| self.is_stranded(k);
        let mut out: Vec<(MCPProvider, String)> = Vec::new();
        let mut j: usize = 0;
        assert(source_keys(configs@.take(0)).filter(pred) =~= Seq::<SourceKey>::empty()) by {
            reveal(Seq::filter);
        }
        assert(source_keys(out@) =~= Seq::<SourceKey>::empty());
        while j < configs.len()
            invariant
                j <= configs@.len(),
                pred == (|k: SourceKey| self.is_stranded(k)),
                source_keys(out@) == source_keys(configs@.take(j as int)).filter(pred),
            decreases configs.len() - j,
        {
            let provider = configs[j].0;
            let path = configs[j].1.as_str();
            let ghost key = (path@, provider);
            proof {
                assert(source_keys(configs@.take(j + 1)) =~= source_keys(configs@.take(j as int)).push(key));
                source_keys(configs@.take(j as int)).lemma_filter_push(key, pred);
            }
            if self.is_pending(path, provider) && !self.is_in_flight(path, provider) {
                let entry = (provider, string_from(path));
                let ghost before = out@;
                out.push(entry);
                assert(source_keys(out@) =~= source_keys(before).push(key));
            }
            j = j + 1;
        }
        assert(configs@.take(configs@.len() as int) =~= configs@);
        out
    }
}

/// The source keys of a list of configs.
pub open spec fn source_keys(configs: Seq<(MCPProvider, String)>) -> Seq<SourceKey> {
    configs.map_values(|c: (MCPProvider, String)| (c.1@, c.0))
}

proof fn lemma_same_states_same_pending(a: FileMCPParseTracker, b: FileMCPParseTracker)
    requires
        forall|k: SourceKey| #[trigger] b.state(k) == a.state(k),
    ensures
        a.nothing_pending() == b.nothing_pending(),
{
    if a.nothing_pending() {
        assert forall|k: SourceKey| !(#[trigger] b.state(k)).pending by {
            assert(!a.state(k).pending);
        }
    }
    if b.nothing_pending() {
        assert forall|k: SourceKey| !(#[trigger] a.state(k)).pending by {
            assert(!b.state(k).pending);
        }
    }
}

proof fn lemma_in_flight_below_next(t: &FileMCPParseTracker, i: int)
    requires
        0 <= i < t.records@.len(),
        t.well_formed(),
    ensures
        t.records@[i].in_flight matches Some(g) ==> g < t.next_parse_generation,
{
}

proof fn lemma_state_absent(records: Seq<SourceRecord>, key: SourceKey)
    requires
        forall|j: int| 0 <= j < records.len() ==> record_key(#[trigger] records[j]) != key,
    ensures
        source_state(records, key) == (SourceState { in_flight: None, pending: false }),
    decreases records.len(),
{
    if records.len() > 0 {
        assert(record_key(records[0]) != key);
        lemma_state_absent(records.drop_first(), key);
    }
}

proof fn lemma_state_of_record(records: Seq<SourceRecord>, i: int)
    requires
        0 <= i < records.len(),
        forall|a: int, b: int| 0 <= a < b < records.len() ==> record_key(#[trigger] records[a]) != record_key(#[trigger] records[b]),
    ensures
        source_state(records, record_key(records[i])) == (SourceState { in_flight: records[i].in_flight, pending: records[i].pending }),
    decreases records.len(),
{
    if i > 0 {
        let rest = records.drop_first();
        assert(record_key(records[0]) != record_key(records[i]));
        assert(rest[i - 1] == records[i]);
        lemma_state_of_record(rest, i - 1);
    }
}

proof fn lemma_state_pending_has_record(records: Seq<SourceRecord>, key: SourceKey)
    requires
        source_state(records, key).pending,
    ensures
        exists|j: int| 0 <= j < records.len() && (#[trigger] records[j]).pending,
    decreases records.len(),
{
    if records.len() > 0 && record_key(records[0]) != key {
        lemma_state_pending_has_record(records.drop_first(), key);
        let j = choose|j: int| 0 <= j < records.drop_first().len() && (#[trigger] records.drop_first()[j]).pending;
        assert(records[j + 1] == records.drop_first()[j]);
    }
}

proof fn lemma_state_after_push(records: Seq<SourceRecord>, rec: SourceRecord)
    requires
        forall|j: int| 0 <= j < records.len() ==> record_key(#[trigger] records[j]) != record_key(rec),
    ensures
        source_state(records.push(rec), record_key(rec)) == (SourceState { in_flight: rec.in_flight, pending: rec.pending }),
        forall|k: SourceKey| k != record_key(rec) ==> #[trigger] source_state(records.push(rec), k) == source_state(records, k),
    decreases records.len(),
{
    let pushed = records.push(rec);
    if records.len() > 0 {
        let rest = records.drop_first();
        assert(pushed.drop_first() =~= rest.push(rec));
        assert(pushed[0] == records[0]);
        assert(record_key(records[0]) != record_key(rec));
        assert forall|j: int| 0 <= j < rest.len() implies record_key(#[trigger] rest[j]) != record_key(rec) by {
            assert(rest[j] == records[j + 1]);
        }
        lemma_state_after_push(rest, rec);
        assert forall|k: SourceKey| k != record_key(rec) implies #[trigger] source_state(pushed, k) == source_state(records, k) by {
            assert(source_state(rest.push(rec), k) == source_state(rest, k));
        }
    } else {
        assert(pushed[0] == rec);
        assert(pushed.drop_first().len() == 0);
        assert forall|k: SourceKey| k != record_key(rec) implies #[trigger] source_state(pushed, k) == source_state(records, k) by {
            assert(source_state(pushed.drop_first(), k) == source_state(records, k));
        }
    }
}

proof fn lemma_state_after_set(records: Seq<SourceRecord>, i: int, rec: SourceRecord)
    requires
        0 <= i < records.len(),
        record_key(rec) == record_key(records[i]),
        forall|a: int, b: int| 0 <= a < b < records.len() ==> record_key(#[trigger] records[a]) != record_key(#[trigger] records[b]),
    ensures
        source_state(records.update(i, rec), record_key(rec)) == (SourceState { in_flight: rec.in_flight, pending: rec.pending }),
        forall|k: SourceKey| k != record_key(rec) ==> #[trigger] source_state(records.update(i, rec), k) == source_state(records, k),
    decreases records.len(),
{
    let updated = records.update(i, rec);
    if i > 0 {
        let rest = records.drop_first();
        assert(updated.drop_first() =~= rest.update(i - 1, rec));
        assert(updated[0] == records[0]);
        assert(record_key(records[0]) != record_key(records[i]));
        assert(rest[i - 1] == records[i]);
        assert forall|a: int, b: int| 0 <= a < b < rest.len() implies record_key(#[trigger] rest[a]) != record_key(#[trigger] rest[b]) by {
            assert(rest[a] == records[a + 1]);
            assert(rest[b] == records[b + 1]);
        }
        lemma_state_after_set(rest, i - 1, rec);
        assert forall|k: SourceKey| k != record_key(rec) implies #[trigger] source_state(updated, k) == source_state(records, k) by {
            assert(source_state(rest.update(i - 1, rec), k) == source_state(rest, k));
        }
    } else {
        assert(updated[0] == rec);
        assert(updated.drop_first() =~= records.drop_first());
        assert forall|k: SourceKey| k != record_key(rec) implies #[trigger] source_state(updated, k) == source_state(records, k) by {
            assert(source_state(updated.drop_first(), k) == source_state(records.drop_first(), k));
        }
    }
}

} // verus!
