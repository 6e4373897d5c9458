//! The cycle store and poet state: an explicit handle holding the cycle
//! history (ordered by cycle number) and the singleton run state, with one
//! mutating entry point per operation. The orchestrator's decisions are
//! pure functions of this store plus the injected model replies and the
//! caller-supplied clock value.

use vstd::prelude::*;
use crate::pipeline::{extraction_spec, run_extraction, Extraction, GenerationMethod};
use crate::template::{apply_meta_form, apply_spec, create_meta_form, meta_form_spec};
use crate::text::{take_chars, take_spec, trim_spec, trim_str, words_spec};

verus! {

/// One completed generation cycle, immutable once stored except for the
/// explicit manual override of `next_prompt`.
#[derive(Clone, Debug)]
pub struct PoemCycle {
    pub id: u64,
    pub cycle_number: u64,
    pub poem: String,
    pub title: String,
    pub next_prompt: String,
    pub created_at: u64,
    pub raw_response: String,
    pub generation_method: GenerationMethod,
}

impl PoemCycle {
    /// An exact copy of the record.
    pub fn duplicate(&self) -> (r: PoemCycle)
        ensures
            r == *self,
    {
        PoemCycle {
            id: self.id,
            cycle_number: self.cycle_number,
            poem: self.poem.clone(),
            title: self.title.clone(),
            next_prompt: self.next_prompt.clone(),
            created_at: self.created_at,
            raw_response: self.raw_response.clone(),
            generation_method: self.generation_method,
        }
    }
}

/// The singleton run state.
#[derive(Clone, Debug)]
pub struct PoetState {
    pub current_cycle: u64,
    pub total_poems: u64,
    pub genesis_prompt: String,
    pub meta_form: String,
    pub last_updated: u64,
}

impl PoetState {
    /// An exact copy of the state.
    pub fn duplicate(&self) -> (r: PoetState)
        ensures
            r == *self,
    {
        PoetState {
            current_cycle: self.current_cycle,
            total_poems: self.total_poems,
            genesis_prompt: self.genesis_prompt.clone(),
            meta_form: self.meta_form.clone(),
            last_updated: self.last_updated,
        }
    }
}

/// Tallies of which layer produced each stored cycle.
#[derive(Clone, Copy, Debug, PartialEq, Eq, Structural)]
pub struct GenerationStats {
    pub total_poems: u64,
    pub primary_success: u64,
    pub fallback_used: u64,
    pub correction_used: u64,
    pub algorithmic_used: u64,
}

/// The fixed theme of cycle 1.
pub open spec fn genesis_prompt_spec() -> Seq<char> {
    "Write about the raw, unfiltered experience of being human"@
}

/// A freshly initialized run state, stamped `now`.
pub open spec fn genesis_state_spec(st: PoetState, now: u64) -> bool {
    &&& st.current_cycle == 0
    &&& st.total_poems == 0
    &&& st.genesis_prompt@ == genesis_prompt_spec()
    &&& st.meta_form@ == meta_form_spec(None)
    &&& st.last_updated == now
}

/// The theme driving the next cycle: the genesis theme before any cycle
/// exists, else the current cycle's stored next prompt.
pub open spec fn theme_spec(cycles: Seq<PoemCycle>, st: PoetState) -> Seq<char> {
    if st.current_cycle == 0 {
        st.genesis_prompt@
    } else {
        cycles[st.current_cycle as int - 1].next_prompt@
    }
}

/// The previous poem quoted for reflection, if any cycle exists.
pub open spec fn prev_poem_spec(cycles: Seq<PoemCycle>, st: PoetState) -> Option<Seq<char>> {
    if st.current_cycle == 0 {
        None
    } else {
        Some(cycles[st.current_cycle as int - 1].poem@)
    }
}

/// A stored cycle in the shape the pipeline guarantees: a title of at
/// most six words, a next prompt of 50 to 300 characters, and a poem that
/// is non-empty after trimming.
pub open spec fn record_valid(c: PoemCycle) -> bool {
    &&& words_spec(c.title@).len() <= 6
    &&& 50 <= c.next_prompt@.len() <= 300
    &&& trim_spec(c.poem@).len() > 0
}

/// Every stored cycle is valid.
pub open spec fn records_valid(cs: Seq<PoemCycle>) -> bool {
    forall|i: int| 0 <= i < cs.len() ==> record_valid(#[trigger] cs[i])
}

/// How many stored cycles carry generation method `m`.
pub open spec fn method_count(cs: Seq<PoemCycle>, m: GenerationMethod) -> nat
    decreases cs.len(),
{
    if cs.len() == 0 {
        0
    } else {
        (if cs[0].generation_method == m {
            1nat
        } else {
            0
        }) + method_count(cs.drop_first(), m)
    }
}

/// The cycle number a store stands at: that of its state, or zero before
/// initialization.
pub open spec fn current_cycle_of(s: &PoetStore) -> int {
    match s.state_view() {
        Some(st) => st.current_cycle as int,
        None => 0,
    }
}

/// The stored poem total, or zero before initialization.
pub open spec fn total_poems_of(s: &PoetStore) -> int {
    match s.state_view() {
        Some(st) => st.total_poems as int,
        None => 0,
    }
}

/// The theme an advance from this store uses: the stored state's theme, or
/// the genesis theme when the state is still absent and will be created.
pub open spec fn effective_theme(s: &PoetStore) -> Seq<char> {
    match s.state_view() {
        Some(st) => theme_spec(s.cycles_view(), st),
        None => genesis_prompt_spec(),
    }
}

/// What one advance hands to the caller: the number the new cycle will
/// get, the active theme, and the fully substituted instruction text to
/// send to the model.
#[derive(Clone, Debug)]
pub struct EvolutionContext {
    pub cycle_number: u64,
    pub theme: String,
    pub full_prompt: String,
}

/// The store: cycle records in ascending cycle order and the singleton
/// state. All mutation goes through the methods below.
pub struct PoetStore {
    cycles: Vec<PoemCycle>,
    state: Option<PoetState>,
}

impl PoetStore {
    /// The stored cycle records, in ascending cycle order.
    pub closed spec fn cycles_view(&self) -> Seq<PoemCycle> {
        self.cycles@
    }

    /// The stored run state, if any.
    pub closed spec fn state_view(&self) -> Option<PoetState> {
        self.state
    }

    /// Structural well-formedness: records are numbered 1 upward without
    /// gaps, and the current cycle never exceeds the number of records.
    pub open spec fn wf(&self) -> bool {
        &&& (self.state_view() is None ==> self.cycles_view().len() == 0)
        &&& (self.state_view() matches Some(st) ==> st.current_cycle as int
            <= self.cycles_view().len())
        &&& forall|i: int|
            0 <= i < self.cycles_view().len() ==> (#[trigger] self.cycles_view()[i]).cycle_number
                as int == i + 1 && self.cycles_view()[i].id as int == i + 1
    }

    /// The normal-flow invariant: the current cycle is the most recently
    /// stored record's number and the poem total matches the record count.
    pub open spec fn synced(&self) -> bool {
        self.state_view() matches Some(st) ==> (st.current_cycle as int
            == self.cycles_view().len() && st.total_poems as int == self.cycles_view().len())
    }

    /// An empty store: no cycles, no state.
    pub fn new() -> (r: PoetStore)
        ensures
            r.wf(),
            r.synced(),
            r.state_view() is None,
            r.cycles_view().len() == 0,
    {
        PoetStore { cycles: Vec::new(), state: None }
    }

    /// Rebuilds a store from parts, accepting them exactly when they
    /// satisfy the structural invariant: no records without a state, a
    /// current cycle within the record count, and records numbered 1
    /// upward without gaps.
    pub fn from_parts(cycles: Vec<PoemCycle>, state: Option<PoetState>) -> (r: Option<PoetStore>)
        ensures
            r is Some <==> ({
                &&& (state is None ==> cycles@.len() == 0)
                &&& (state matches Some(st) ==> st.current_cycle as int <= cycles@.len())
                &&& forall|i: int|
                    0 <= i < cycles@.len() ==> (#[trigger] cycles@[i]).cycle_number as int == i + 1
                        && cycles@[i].id as int == i + 1
            }),
            r matches Some(s) ==> {
                &&& s.wf()
                &&& s.cycles_view() == cycles@
                &&& s.state_view() == state
            },
    {
        match &state {
            None => {
                if cycles.len() != 0 {
                    return None;
                }
            },
            Some(st) => {
                if st.current_cycle > cycles.len() as u64 {
                    return None;
                }
            },
        }
        let mut i: usize = 0;
        while i < cycles.len()
            invariant
                0 <= i <= cycles@.len(),
                forall|k: int|
                    0 <= k < i ==> (#[trigger] cycles@[k]).cycle_number as int == k + 1
                        && cycles@[k].id as int == k + 1,
            decreases cycles.len() - i,
        {
            if cycles[i].cycle_number != i as u64 + 1 || cycles[i].id != i as u64 + 1 {
                proof {
                    assert(!(cycles@[i as int].cycle_number as int == i + 1 && cycles@[i as int].id
                        as int == i + 1));
                }
                return None;
            }
            i = i + 1;
        }
        Some(PoetStore { cycles, state })
    }

    /// Overwrites the poet state with a fresh genesis record (existing
    /// cycle records are left alone) and returns a confirmation message
    /// naming the genesis theme.
    pub fn initialize_poet(&mut self, now: u64) -> (r: String)
        requires
            old(self).wf(),
        ensures
            final(self).wf(),
            final(self).cycles_view() == old(self).cycles_view(),
            final(self).state_view() matches Some(st) && genesis_state_spec(st, now),
            r@ == "Poet initialized with genesis prompt: "@ + genesis_prompt_spec(),
    {
        let genesis: String = "Write about the raw, unfiltered experience of being human".to_owned();
        let meta_form = create_meta_form(None);
        let mut msg = String::new();
        msg.append("Poet initialized with genesis prompt: ");
        msg.append(genesis.as_str());
        self.state = Some(
            PoetState {
                current_cycle: 0,
                total_poems: 0,
                genesis_prompt: genesis,
                meta_form,
                last_updated: now,
            },
        );
        msg
    }

    /// Whether a poet state exists.
    pub fn is_poet_initialized(&self) -> (r: bool)
        ensures
            r == (self.state_view() is Some),
    {
        self.state.is_some()
    }

    /// The first half of one advance: initializes the state if absent,
    /// determines the active theme and the previous poem, and builds the
    /// fully substituted prompt for the model. The store's records are
    /// untouched, and an existing state is read, not changed.
    pub fn begin_evolution(&mut self, now: u64) -> (r: EvolutionContext)
        requires
            old(self).wf(),
            old(self).state_view() matches Some(st) ==> st.current_cycle < u64::MAX,
        ensures
            final(self).wf(),
            final(self).cycles_view() == old(self).cycles_view(),
            final(self).state_view() is Some,
            old(self).state_view() is None ==> genesis_state_spec(
                final(self).state_view()->0,
                now,
            ),
            old(self).state_view() is Some ==> final(self).state_view() == old(
                self,
            ).state_view(),
            old(self).synced() ==> final(self).synced(),
            ({
                let st = final(self).state_view()->0;
                &&& r.cycle_number == st.current_cycle + 1
                &&& r.theme@ == theme_spec(final(self).cycles_view(), st)
                &&& r.full_prompt@ == apply_spec(
                    meta_form_spec(prev_poem_spec(final(self).cycles_view(), st)),
                    st.current_cycle as int + 1,
                    theme_spec(final(self).cycles_view(), st),
                )
            }),
    {
        if self.state.is_none() {
            let genesis: String =
                "Write about the raw, unfiltered experience of being human".to_owned();
            let meta_form = create_meta_form(None);
            self.state = Some(
                PoetState {
                    current_cycle: 0,
                    total_poems: 0,
                    genesis_prompt: genesis,
                    meta_form,
                    last_updated: now,
                },
            );
        }
        let st = match &self.state {
            Some(st) => st,
            None => unreached(),
        };
        let cur = st.current_cycle;
        let n = self.cycles.len();
        proof {
            assert(cur as int <= n as int);
        }
        let prev_poem: Option<String> = if cur > 0 {
            Some(self.cycles[(cur - 1) as usize].poem.clone())
        } else {
            None
        };
        let theme: String = if cur == 0 {
            st.genesis_prompt.clone()
        } else {
            self.cycles[(cur - 1) as usize].next_prompt.clone()
        };
        let meta = create_meta_form(prev_poem);
        let full_prompt = apply_meta_form(meta.as_str(), cur + 1, theme.as_str());
        EvolutionContext { cycle_number: cur + 1, theme, full_prompt }
    }

    /// The second half of one advance: stores the extracted triple as the
    /// new current cycle (fields trimmed, the raw reply truncated to 5000
    /// characters for audit) and advances the state, carrying the genesis
    /// prompt and template text over unchanged.
    pub fn complete_evolution(&mut self, raw_response: &str, extraction: Extraction, now: u64)
        -> (r: PoemCycle)
        requires
            old(self).wf(),
            old(self).state_view() matches Some(st) ==> st.current_cycle < u64::MAX
                && st.total_poems < u64::MAX,
            old(self).state_view() is Some,
        ensures
            final(self).wf(),
            old(self).synced() ==> final(self).synced(),
            ({
                let st = old(self).state_view()->0;
                let cur = st.current_cycle as int;
                &&& r.id == cur + 1
                &&& r.cycle_number == cur + 1
                &&& r.poem@ == trim_spec(extraction.poem@)
                &&& r.title@ == trim_spec(extraction.title@)
                &&& r.next_prompt@ == trim_spec(extraction.next_prompt@)
                &&& r.created_at == now
                &&& r.raw_response@ == take_spec(raw_response@, 5000)
                &&& r.generation_method == extraction.method
                &&& (cur < old(self).cycles_view().len() ==> final(self).cycles_view()
                    =~= old(self).cycles_view().update(cur, r))
                &&& (cur == old(self).cycles_view().len() ==> final(self).cycles_view()
                    =~= old(self).cycles_view().push(r))
                &&& (final(self).state_view() matches Some(ns) && ns.current_cycle == cur + 1
                    && ns.total_poems == st.total_poems + 1 && ns.genesis_prompt
                    == st.genesis_prompt && ns.meta_form == st.meta_form && ns.last_updated == now)
            }),
    {
        let st = match &self.state {
            Some(st) => st.duplicate(),
            None => unreached(),
        };
        let cur = st.current_cycle;
        let record = PoemCycle {
            id: cur + 1,
            cycle_number: cur + 1,
            poem: trim_str(extraction.poem.as_str()).to_owned(),
            title: trim_str(extraction.title.as_str()).to_owned(),
            next_prompt: trim_str(extraction.next_prompt.as_str()).to_owned(),
            created_at: now,
            raw_response: take_chars(raw_response, 5000).to_owned(),
            generation_method: extraction.method,
        };
        let n = self.cycles.len();
        proof {
            assert(cur as int <= n as int);
        }
        let idx = cur as usize;
        if idx < self.cycles.len() {
            let ghost before = self.cycles@;
            self.cycles.remove(idx);
            self.cycles.insert(idx, record.duplicate());
            proof {
                assert(self.cycles@ =~= before.update(idx as int, record));
            }
        } else {
            self.cycles.push(record.duplicate());
        }
        self.state = Some(
            PoetState {
                current_cycle: cur + 1,
                total_poems: st.total_poems + 1,
                genesis_prompt: st.genesis_prompt,
                meta_form: st.meta_form,
                last_updated: now,
            },
        );
        record
    }

    /// One whole advance with the model's replies injected as values:
    /// initializes the state if absent, runs the extraction pipeline on
    /// the raw reply (consulting `correction_response` only on the paths
    /// where a correction is planned), stores the resulting cycle and
    /// advances the state. It cannot fail: every reply, including an
    /// absent one handed over as the empty string, yields a stored cycle,
    /// and the stored cycle is always valid — at most six title words, a
    /// next prompt of 50 to 300 characters, a non-empty poem — so a store
    /// whose records were all valid stays that way.
    pub fn evolve_poet(
        &mut self,
        raw_response: &str,
        correction_response: Option<&str>,
        now: u64,
    ) -> (r: PoemCycle)
        requires
            old(self).wf(),
            old(self).state_view() matches Some(st) ==> st.current_cycle < u64::MAX
                && st.total_poems < u64::MAX,
        ensures
            final(self).wf(),
            old(self).synced() ==> final(self).synced(),
            final(self).state_view() is Some,
            ({
                let cur = current_cycle_of(old(self));
                let ex = extraction_spec(
                    raw_response@,
                    match correction_response {
                        Some(c) => Some(c@),
                        None => None,
                    },
                    cur + 1,
                    effective_theme(old(self)),
                    now as int,
                );
                &&& r.id == cur + 1
                &&& r.cycle_number == cur + 1
                &&& r.poem@ == trim_spec(ex.poem)
                &&& r.title@ == trim_spec(ex.title)
                &&& r.next_prompt@ == trim_spec(ex.next_prompt)
                &&& r.created_at == now
                &&& r.raw_response@ == take_spec(raw_response@, 5000)
                &&& r.generation_method == ex.method
                &&& (cur < old(self).cycles_view().len() ==> final(self).cycles_view()
                    =~= old(self).cycles_view().update(cur, r))
                &&& (cur == old(self).cycles_view().len() ==> final(self).cycles_view()
                    =~= old(self).cycles_view().push(r))
                &&& (final(self).state_view() matches Some(ns) && ns.current_cycle == cur + 1
                    && ns.total_poems == total_poems_of(old(self)) + 1 && ns.last_updated == now)
            }),
            old(self).state_view() matches Some(st0) ==> (final(self).state_view() matches Some(
                ns,
            ) && ns.genesis_prompt == st0.genesis_prompt && ns.meta_form == st0.meta_form),
            old(self).state_view() is None ==> (final(self).state_view() matches Some(ns)
                && ns.genesis_prompt@ == genesis_prompt_spec() && ns.meta_form@ == meta_form_spec(
                None,
            )),
            record_valid(r),
            r.poem@.len() > 0,
            records_valid(old(self).cycles_view()) ==> records_valid(final(self).cycles_view()),
    {
        let ctx = self.begin_evolution(now);
        let extraction = run_extraction(
            raw_response,
            correction_response,
            ctx.cycle_number,
            ctx.theme.as_str(),
            now,
        );
        let record = self.complete_evolution(raw_response, extraction, now);
        proof {
            crate::laws::lemma_pipeline_output_valid(
                raw_response@,
                match correction_response {
                    Some(c) => Some(c@),
                    None => None,
                },
                current_cycle_of(old(self)) + 1,
                effective_theme(old(self)),
                now as int,
            );
            crate::text::lemma_trim_idempotent(extraction.poem@);
            let cur = current_cycle_of(old(self));
            let before = old(self).cycles_view();
            if records_valid(before) {
                assert forall|i: int| 0 <= i < self.cycles@.len() implies record_valid(
                    #[trigger] self.cycles@[i],
                ) by {
                    if i != cur {
                        assert(self.cycles@[i] == before[i]);
                        assert(record_valid(before[i]));
                    } else {
                        assert(self.cycles@[i] == record);
                    }
                }
            }
        }
        record
    }

    /// The most recent cycle, or nothing before the first advance.
    pub fn get_current_poem(&self) -> (r: Option<PoemCycle>)
        requires
            self.wf(),
        ensures
            r is Some <==> (self.state_view() matches Some(st) && st.current_cycle > 0),
            r matches Some(c) ==> c == self.cycles_view()[self.state_view()->0.current_cycle
                as int - 1],
    {
        match &self.state {
            None => None,
            Some(st) => {
                if st.current_cycle == 0 {
                    None
                } else {
                    let n = self.cycles.len();
                    proof {
                        assert(st.current_cycle as int <= n as int);
                    }
                    Some(self.cycles[(st.current_cycle - 1) as usize].duplicate())
                }
            },
        }
    }

    /// Every stored cycle, in ascending cycle order.
    pub fn get_all_poems(&self) -> (r: Vec<PoemCycle>)
        ensures
            r@ == self.cycles_view(),
    {
        let mut out: Vec<PoemCycle> = Vec::new();
        let mut i: usize = 0;
        while i < self.cycles.len()
            invariant
                0 <= i <= self.cycles@.len(),
                out@ =~= self.cycles@.take(i as int),
            decreases self.cycles.len() - i,
        {
            out.push(self.cycles[i].duplicate());
            proof {
                assert(out@ =~= self.cycles@.take(i + 1));
            }
            i = i + 1;
        }
        proof {
            assert(self.cycles@.take(self.cycles@.len() as int) =~= self.cycles@);
        }
        out
    }

    /// The stored run state, if any.
    pub fn get_poet_state(&self) -> (r: Option<PoetState>)
        ensures
            r == self.state_view(),
    {
        match &self.state {
            None => None,
            Some(st) => Some(st.duplicate()),
        }
    }

    /// The cycle with the given number, if it exists.
    pub fn get_poem_by_cycle(&self, cycle_number: u64) -> (r: Option<PoemCycle>)
        requires
            self.wf(),
        ensures
            r is Some <==> 1 <= cycle_number as int <= self.cycles_view().len(),
            r matches Some(c) ==> c == self.cycles_view()[cycle_number as int - 1],
    {
        if cycle_number >= 1 && cycle_number <= self.cycles.len() as u64 {
            Some(self.cycles[(cycle_number - 1) as usize].duplicate())
        } else {
            None
        }
    }

    /// The stored poem total, or zero before initialization.
    pub fn get_poem_count(&self) -> (r: u64)
        ensures
            r == match self.state_view() {
                Some(st) => st.total_poems,
                None => 0u64,
            },
    {
        match &self.state {
            None => 0,
            Some(st) => st.total_poems,
        }
    }

    /// Tallies the generation methods over every stored cycle.
    pub fn get_generation_stats(&self) -> (r: GenerationStats)
        ensures
            r.total_poems == self.cycles_view().len(),
            r.primary_success == method_count(self.cycles_view(), GenerationMethod::Primary),
            r.fallback_used == method_count(self.cycles_view(), GenerationMethod::Fallback),
            r.correction_used == method_count(self.cycles_view(), GenerationMethod::Corrected),
            r.algorithmic_used == method_count(self.cycles_view(), GenerationMethod::Algorithmic),
    {
        let ghost cs = self.cycles@;
        let mut primary: u64 = 0;
        let mut fallback: u64 = 0;
        let mut corrected: u64 = 0;
        let mut algorithmic: u64 = 0;
        proof {
            assert(cs.skip(0) =~= cs);
        }
        let mut i: usize = 0;
        while i < self.cycles.len()
            invariant
                0 <= i <= cs.len(),
                cs == self.cycles@,
                primary <= i,
                fallback <= i,
                corrected <= i,
                algorithmic <= i,
                method_count(cs, GenerationMethod::Primary) == primary + method_count(
                    cs.skip(i as int),
                    GenerationMethod::Primary,
                ),
                method_count(cs, GenerationMethod::Fallback) == fallback + method_count(
                    cs.skip(i as int),
                    GenerationMethod::Fallback,
                ),
                method_count(cs, GenerationMethod::Corrected) == corrected + method_count(
                    cs.skip(i as int),
                    GenerationMethod::Corrected,
                ),
                method_count(cs, GenerationMethod::Algorithmic) == algorithmic + method_count(
                    cs.skip(i as int),
                    GenerationMethod::Algorithmic,
                ),
            decreases self.cycles.len() - i,
        {
            proof {
                assert(cs.skip(i as int)[0] == cs[i as int]);
                assert(cs.skip(i as int).drop_first() =~= cs.skip(i + 1));
            }
            match self.cycles[i].generation_method {
                GenerationMethod::Primary => {
                    primary = primary + 1;
                },
                GenerationMethod::Fallback => {
                    fallback = fallback + 1;
                },
                GenerationMethod::Corrected => {
                    corrected = corrected + 1;
                },
                GenerationMethod::Algorithmic => {
                    algorithmic = algorithmic + 1;
                },
            }
            i = i + 1;
        }
        proof {
            assert(cs.skip(cs.len() as int) =~= Seq::<PoemCycle>::empty());
        }
        GenerationStats {
            total_poems: self.cycles.len() as u64,
            primary_success: primary,
            fallback_used: fallback,
            correction_used: corrected,
            algorithmic_used: algorithmic,
        }
    }

    /// Clears every cycle record and reinitializes the state to genesis;
    /// always reports success.
    pub fn reset_poet(&mut self, now: u64) -> (r: bool)
        ensures
            r == true,
            final(self).wf(),
            final(self).synced(),
            final(self).cycles_view().len() == 0,
            final(self).state_view() matches Some(st) && genesis_state_spec(st, now),
    {
        self.cycles.clear();
        let genesis: String = "Write about the raw, unfiltered experience of being human".to_owned();
        let meta_form = create_meta_form(None);
        self.state = Some(
            PoetState {
                current_cycle: 0,
                total_poems: 0,
                genesis_prompt: genesis,
                meta_form,
                last_updated: now,
            },
        );
        true
    }

    /// Overrides the current cycle's next prompt in place; reports failure
    /// when no cycle has been stored yet, leaving everything unchanged.
    pub fn set_next_prompt(&mut self, next_prompt: String) -> (r: bool)
        requires
            old(self).wf(),
        ensures
            final(self).wf(),
            r == (old(self).state_view() matches Some(st) && st.current_cycle > 0),
            !r ==> final(self).cycles_view() == old(self).cycles_view() && final(self).state_view()
                == old(self).state_view(),
            r ==> ({
                let st = old(self).state_view()->0;
                let cur = st.current_cycle as int;
                &&& final(self).state_view() == old(self).state_view()
                &&& final(self).cycles_view() =~= old(self).cycles_view().update(
                    cur - 1,
                    PoemCycle {
                        next_prompt: next_prompt,
                        ..old(self).cycles_view()[cur - 1]
                    },
                )
            }),
            old(self).synced() ==> final(self).synced(),
    {
        let cur = match &self.state {
            None => {
                return false;
            },
            Some(st) => st.current_cycle,
        };
        if cur == 0 {
            return false;
        }
        let n = self.cycles.len();
        proof {
            assert(cur as int <= n as int);
        }
        let idx = (cur - 1) as usize;
        let mut rec = self.cycles[idx].duplicate();
        rec.next_prompt = next_prompt;
        let ghost before = self.cycles@;
        self.cycles.remove(idx);
        self.cycles.insert(idx, rec);
        proof {
            assert(self.cycles@ =~= before.update(
                idx as int,
                PoemCycle { next_prompt: next_prompt, ..before[idx as int] },
            ));
        }
        true
    }

    /// The stored (truncated) raw model reply of the given cycle.
    pub fn get_raw_response(&self, cycle_number: u64) -> (r: Option<String>)
        requires
            self.wf(),
        ensures
            r is Some <==> 1 <= cycle_number as int <= self.cycles_view().len(),
            r matches Some(s) ==> s@ == self.cycles_view()[cycle_number as int - 1].raw_response@,
    {
        if cycle_number >= 1 && cycle_number <= self.cycles.len() as u64 {
            Some(self.cycles[(cycle_number - 1) as usize].raw_response.clone())
        } else {
            None
        }
    }
}

} // verus!
