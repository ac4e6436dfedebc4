//! A patch: the effects of one song with the triggers that start them. MIDI
//! events go to all effects; a trigger stops the running effects of its
//! effect's group and starts the effect.
use vstd::prelude::*;
use crate::midi::{MidiMessage, OutputEvent, OutputEventView, string_of};
use crate::trigger::{Trigger, triggered_by};
use crate::effects::effect::{Effect, MonoGroup, Job, JobView, StartOutcome};
use crate::effects::any_effect::AnyEffect;

verus! {

/// The light show that goes with a patch.
#[derive(Copy, Clone, Debug, PartialEq, Eq, Structural)]
pub struct MidiLightPatch {
    pub stream: bool,
    pub blink: bool,
    pub flash: bool,
    pub ripples: bool,
    pub push: bool,
    pub fish: bool,
    pub river: bool,
    pub stream_center: bool,
    pub max_note: u8,
}

/// What the application does for a patch, in order.
pub enum PatchAction {
    /// Send these output events, in order.
    Send(Vec<OutputEvent>),
    /// Configure the light strip.
    Reconfigure(MidiLightPatch),
    /// Tell the background job of the effect at this index to stop.
    StopJob(usize),
    /// Run a background job for the effect at this index.
    StartJob(usize, Job),
}

pub enum PatchActionView {
    Send(Seq<OutputEventView>),
    Reconfigure(MidiLightPatch),
    StopJob(usize),
    StartJob(usize, JobView),
}

impl View for PatchAction {
    type V = PatchActionView;

    open spec fn view(&self) -> PatchActionView {
        match self {
            PatchAction::Send(es) => PatchActionView::Send(es.deep_view()),
            PatchAction::Reconfigure(l) => PatchActionView::Reconfigure(*l),
            PatchAction::StopJob(i) => PatchActionView::StopJob(*i),
            PatchAction::StartJob(i, j) => PatchActionView::StartJob(*i, j@),
        }
    }
}

impl DeepView for PatchAction {
    type V = PatchActionView;

    open spec fn deep_view(&self) -> PatchActionView {
        self@
    }
}

/// The failure of an effect that the event would have caused.
#[derive(Copy, Clone, Debug, PartialEq, Eq, Structural)]
pub enum PatchError {
    EffectFailure,
}

/// An effect with the trigger that starts it.
pub type Slot = (Trigger, AnyEffect);

/// The action that sends `outs`; none if there is nothing to send.
pub open spec fn sends(outs: Seq<OutputEventView>) -> Seq<PatchActionView> {
    if outs.len() > 0 {
        seq![PatchActionView::Send(outs)]
    } else {
        Seq::empty()
    }
}

/// The stop of a running effect: its job is told to stop, then the
/// effect's own stop events are sent.
pub open spec fn stop_actions(i: int, e: AnyEffect) -> Seq<PatchActionView> {
    seq![PatchActionView::StopJob(i as usize)] + sends(e.on_stop().1)
}

/// Whether the stop of effects of `group` (of all effects if `None`)
/// concerns the effect `e`: it runs, and is of the group.
pub open spec fn to_stop(e: AnyEffect, group: Option<MonoGroup>) -> bool {
    e.running() && match group {
        Some(g) => e.group() == g,
        None => true,
    }
}

/// The slots after stopping the effects that `group` concerns.
pub open spec fn stopped_slots(es: Seq<Slot>, group: Option<MonoGroup>) -> Seq<Slot> {
    Seq::new(es.len(), |j: int| if to_stop(es[j].1, group) { (es[j].0, es[j].1.on_stop().0) } else { es[j] })
}

/// The actions of stopping, among the first `k` effects, those that `group`
/// concerns, in order.
pub open spec fn stop_actions_upto(es: Seq<Slot>, group: Option<MonoGroup>, k: int) -> Seq<PatchActionView>
    decreases k,
{
    if k <= 0 {
        Seq::empty()
    } else {
        stop_actions_upto(es, group, k - 1) + if to_stop(es[k - 1].1, group) {
            stop_actions(k - 1, es[k - 1].1)
        } else {
            Seq::empty()
        }
    }
}

pub open spec fn all_inv(es: Seq<Slot>) -> bool {
    forall|i: int| 0 <= i < es.len() ==> #[trigger] es[i].1.inv()
}

/// The triggers of the last messages that started effects are distinct.
pub open spec fn distinct_keys(ls: Seq<(Trigger, MidiMessage)>) -> bool {
    forall|i: int, j: int| 0 <= i < j < ls.len() ==> #[trigger] ls[i].0@ != #[trigger] ls[j].0@
}

/// The last message that started the effects of each trigger.
pub open spec fn last_events_map(ls: Seq<(Trigger, MidiMessage)>) -> Map<(Seq<char>, u8), MidiMessage>
    decreases ls.len(),
{
    if ls.len() == 0 {
        Map::empty()
    } else {
        last_events_map(ls.drop_last()).insert(ls.last().0@, ls.last().1)
    }
}

proof fn lemma_map_keys(ls: Seq<(Trigger, MidiMessage)>, k: (Seq<char>, u8))
    ensures
        last_events_map(ls).contains_key(k) <==> exists|i: int| 0 <= i < ls.len() && ls[i].0@ == k,
    decreases ls.len(),
{
    if ls.len() > 0 {
        lemma_map_keys(ls.drop_last(), k);
        if last_events_map(ls.drop_last()).contains_key(k) {
            let i = choose|i: int| 0 <= i < ls.drop_last().len() && ls.drop_last()[i].0@ == k;
            assert(ls[i].0@ == k);
        }
        if exists|i: int| 0 <= i < ls.len() && ls[i].0@ == k {
            let i = choose|i: int| 0 <= i < ls.len() && ls[i].0@ == k;
            if i < ls.len() - 1 {
                assert(ls.drop_last()[i].0@ == k);
            }
        }
    }
}

proof fn lemma_map_update(ls: Seq<(Trigger, MidiMessage)>, i: int, m: MidiMessage)
    requires
        distinct_keys(ls),
        0 <= i < ls.len(),
    ensures
        distinct_keys(ls.update(i, (ls[i].0, m))),
        last_events_map(ls.update(i, (ls[i].0, m))) == last_events_map(ls).insert(ls[i].0@, m),
    decreases ls.len(),
{
    let ls2 = ls.update(i, (ls[i].0, m));
    assert forall|a: int, b: int| 0 <= a < b < ls2.len() implies #[trigger] ls2[a].0@ != #[trigger] ls2[b].0@ by {
        assert(ls2[a].0 == ls[a].0);
        assert(ls2[b].0 == ls[b].0);
    }
    if i == ls.len() - 1 {
        assert(ls2.drop_last() =~= ls.drop_last());
        assert(last_events_map(ls2) =~= last_events_map(ls).insert(ls[i].0@, m));
    } else {
        assert(ls2.drop_last() =~= ls.drop_last().update(i, (ls[i].0, m)));
        lemma_map_update(ls.drop_last(), i, m);
        assert(ls.last().0@ != ls[i].0@);
        assert(last_events_map(ls2) =~= last_events_map(ls).insert(ls[i].0@, m));
    }
}

pub struct Patch {
    name: String,
    effects: Vec<Slot>,
    last_midi_events: Vec<(Trigger, MidiMessage)>,
    program: u8,
    midi_light_patch: Option<MidiLightPatch>,
}

pub open spec fn init_actions(light: Option<MidiLightPatch>) -> Seq<PatchActionView> {
    match light {
        Some(l) => seq![PatchActionView::Reconfigure(l)],
        None => Seq::empty(),
    }
}

fn push_sends(acts: &mut Vec<PatchAction>, outs: Vec<OutputEvent>)
    ensures
        final(acts).deep_view() == old(acts).deep_view() + sends(outs.deep_view()),
{
    let ghost before = acts.deep_view();
    if outs.len() > 0 {
        acts.push(PatchAction::Send(outs));
        assert(acts.deep_view() =~= before + sends(outs.deep_view()));
    } else {
        assert(sends(outs.deep_view()) =~= Seq::<PatchActionView>::empty());
        assert(acts.deep_view() =~= before + sends(outs.deep_view()));
    }
}

/// Whether the effect's group is `group`, as an executable test.
fn group_matches(e: &AnyEffect, group: Option<MonoGroup>) -> (b: bool)
    requires
        e.inv(),
    ensures
        b == to_stop(*e, group),
{
    if !e.is_running() {
        return false;
    }
    match group {
        Some(g) => e.mono_group() == g,
        None => true,
    }
}

/// Starts the effect `e` at index `t`, stopping it first if it runs; false,
/// with the effect stopped, if the ready effect cannot be started.
fn start_effect(e: &mut AnyEffect, t: usize, midi_message: MidiMessage, now: u64, acts: &mut Vec<PatchAction>) -> (started: bool)
    requires
        old(e).inv(),
    ensures
        final(e).inv(),
        started == ready(*old(e)).start_ok(midi_message, now),
        started ==> *final(e) == ready(*old(e)).on_start(midi_message, now).0,
        !started ==> *final(e) == ready(*old(e)),
        started ==> final(acts).deep_view() == old(acts).deep_view() + start_actions(t as int, *old(e), midi_message, now),
{
    let ghost e0 = *e;
    let ghost before = acts.deep_view();
    if e.is_running() {
        proof {
            e0.lemma_stop_halts();
        }
        let outs = e.stop();
        acts.push(PatchAction::StopJob(t));
        push_sends(acts, outs);
    }
    proof {
        if e0.running() {
            e0.lemma_stop_halts();
        }
    }
    assert(*e == ready(e0));
    let ghost before_start = acts.deep_view();
    assert(before_start =~= before + if e0.running() { stop_actions(t as int, e0) } else { Seq::empty() });
    if !e.can_start(midi_message, now) {
        return false;
    }
    let o = e.start(midi_message, now);
    let ghost ov = o@;
    let StartOutcome { messages, job, .. } = o;
    push_sends(acts, messages);
    let ghost after_messages = acts.deep_view();
    match job {
        Some(job) => {
            acts.push(PatchAction::StartJob(t, job));
        },
        None => {},
    }
    let ghost job_actions = match ov.job {
        Some(jv) => seq![PatchActionView::StartJob(t, jv)],
        None => Seq::empty(),
    };
    assert(acts.deep_view() =~= after_messages + job_actions);
    assert(start_actions(t as int, e0, midi_message, now) =~= (if e0.running() { stop_actions(t as int, e0) } else { Seq::empty() }) + sends(ov.messages) + job_actions);
    assert(acts.deep_view() =~= before + start_actions(t as int, e0, midi_message, now));
    true
}

impl Patch {
    pub closed spec fn patch_name(&self) -> Seq<char> {
        self.name@
    }

    pub closed spec fn slots(&self) -> Seq<Slot> {
        self.effects@
    }

    pub closed spec fn last_events(&self) -> Seq<(Trigger, MidiMessage)> {
        self.last_midi_events@
    }

    pub closed spec fn program_number(&self) -> u8 {
        self.program
    }

    pub closed spec fn light(&self) -> Option<MidiLightPatch> {
        self.midi_light_patch
    }

    /// Every effect keeps its invariant, and no trigger has two last events.
    pub closed spec fn inv(&self) -> bool {
        &&& all_inv(self.effects@)
        &&& distinct_keys(self.last_midi_events@)
    }

    pub fn new(name: &str, effects: Vec<Slot>, program: u8, midi_light_patch: Option<MidiLightPatch>) -> (p: Patch)
        requires
            all_inv(effects@),
        ensures
            p.inv(),
            p.patch_name() == name@,
            p.slots() == effects@,
            p.last_events() == Seq::<(Trigger, MidiMessage)>::empty(),
            p.program_number() == program,
            p.light() == midi_light_patch,
    {
        Patch {
            name: string_of(name),
            effects,
            last_midi_events: Vec::new(),
            program,
            midi_light_patch,
        }
    }

    /// A patch of effects that no trigger starts.
    pub fn new_simple(name: &str, effects: Vec<AnyEffect>, program: u8) -> (p: Patch)
        requires
            forall|i: int| 0 <= i < effects@.len() ==> #[trigger] effects@[i].inv(),
        ensures
            p.inv(),
            p.patch_name() == name@,
            p.slots().len() == effects@.len(),
            forall|i: int| 0 <= i < effects@.len() ==> #[trigger] p.slots()[i].1 == effects@[i]
                && p.slots()[i].0@ == (crate::trigger::never_device(), 0u8),
            p.last_events() == Seq::<(Trigger, MidiMessage)>::empty(),
            p.program_number() == program,
            p.light() == None::<MidiLightPatch>,
    {
        let mut effects = effects;
        let ghost all = effects@;
        let mut rev: Vec<AnyEffect> = Vec::new();
        while effects.len() > 0
            invariant
                all == effects@ + rev@.reverse(),
            decreases effects@.len(),
        {
            let e = effects.pop().unwrap();
            rev.push(e);
            assert(all =~= effects@ + rev@.reverse());
        }
        let mut slots: Vec<Slot> = Vec::new();
        while rev.len() > 0
            invariant
                all == Seq::new(slots@.len(), |i: int| slots@[i].1) + rev@.reverse(),
                forall|i: int| 0 <= i < slots@.len() ==> #[trigger] slots@[i].0@ == (crate::trigger::never_device(), 0u8),
            decreases rev@.len(),
        {
            let e = rev.pop().unwrap();
            let ghost before = slots@;
            slots.push((Trigger::never(), e));
            assert(Seq::new(slots@.len(), |i: int| slots@[i].1) =~= Seq::new(before.len(), |i: int| before[i].1).push(e));
            assert(all =~= Seq::new(slots@.len(), |i: int| slots@[i].1) + rev@.reverse());
        }
        assert(all =~= Seq::new(slots@.len(), |i: int| slots@[i].1));
        assert forall|i: int| 0 <= i < slots@.len() implies #[trigger] slots@[i].1.inv() by {
            assert(Seq::new(slots@.len(), |i: int| slots@[i].1)[i] == slots@[i].1);
        }
        Patch {
            name: string_of(name),
            effects: slots,
            last_midi_events: Vec::new(),
            program,
            midi_light_patch: None,
        }
    }

    /// The actions that set the patch up: its light show, if it has one.
    pub fn init(&self) -> (acts: Vec<PatchAction>)
        ensures
            acts.deep_view() == init_actions(self.light()),
    {
        let mut acts: Vec<PatchAction> = Vec::new();
        if let Some(light) = self.midi_light_patch {
            acts.push(PatchAction::Reconfigure(light));
        }
        assert(acts.deep_view() =~= init_actions(self.light()));
        acts
    }

    pub fn program(&self) -> (p: u8)
        ensures
            p == self.program_number(),
    {
        self.program
    }

    pub fn name(&self) -> (n: &str)
        ensures
            n@ == self.patch_name(),
    {
        self.name.as_str()
    }

    fn stop_matching(&mut self, group: Option<MonoGroup>) -> (acts: Vec<PatchAction>)
        requires
            old(self).inv(),
        ensures
            final(self).inv(),
            final(self).slots() == stopped_slots(old(self).slots(), group),
            acts.deep_view() == stop_actions_upto(old(self).slots(), group, old(self).slots().len() as int),
            final(self).patch_name() == old(self).patch_name(),
            final(self).last_events() == old(self).last_events(),
            final(self).program_number() == old(self).program_number(),
            final(self).light() == old(self).light(),
    {
        let ghost es = self.effects@;
        let n = self.effects.len();
        let mut acts: Vec<PatchAction> = Vec::new();
        let mut j: usize = 0;
        while j < n
            invariant
                n == es.len(),
                self.effects@.len() == n,
                j <= n,
                all_inv(es),
                all_inv(self.effects@),
                distinct_keys(self.last_midi_events@),
                self.name@ == old(self).name@,
                self.last_midi_events@ == old(self).last_midi_events@,
                self.program == old(self).program,
                self.midi_light_patch == old(self).midi_light_patch,
                forall|x: int| 0 <= x < n ==> #[trigger] self.effects@[x] == if x < j { stopped_slots(es, group)[x] } else { es[x] },
                acts.deep_view() == stop_actions_upto(es, group, j as int),
            decreases n - j,
        {
            let slot = &mut self.effects[j];
            if group_matches(&slot.1, group) {
                proof {
                    es[j as int].1.lemma_stop_halts();
                }
                let outs = slot.1.stop();
                let ghost before = acts.deep_view();
                acts.push(PatchAction::StopJob(j));
                push_sends(&mut acts, outs);
                assert(acts.deep_view() =~= stop_actions_upto(es, group, j + 1));
            } else {
                assert(acts.deep_view() =~= stop_actions_upto(es, group, j + 1));
            }
            j = j + 1;
        }
        assert(self.effects@ =~= stopped_slots(es, group));
        acts
    }

    /// Whether the effects can handle the event without a failure.
    pub fn can_handle_event(&self, device: &str, midi_message: MidiMessage, now: u64) -> (b: bool)
        requires
            self.inv(),
        ensures
            b == events_ok(self.slots(), device@, midi_message, now),
    {
        let n = self.effects.len();
        let mut i: usize = 0;
        while i < n
            invariant
                n == self.effects@.len(),
                all_inv(self.effects@),
                i <= n,
                forall|x: int| 0 <= x < i ==> #[trigger] self.effects@[x].1.event_ok(device@, midi_message, now),
            decreases n - i,
        {
            if !self.effects[i].1.can_handle(device, midi_message, now) {
                return false;
            }
            i = i + 1;
        }
        true
    }

    /// All effects handle the MIDI event; then each triggered effect stops
    /// the running effects of its group, records the event as its trigger's
    /// last event, and starts. A failure that an effect would have is
    /// reported instead.
    pub fn on_midi_event(&mut self, device: &str, midi_message: MidiMessage, now: u64) -> (r: Result<Vec<PatchAction>, PatchError>)
        requires
            old(self).inv(),
        ensures
            final(self).inv(),
            r is Ok <==> patch_event_ok(old(self).slots(), device@, midi_message, now),
            !events_ok(old(self).slots(), device@, midi_message, now) ==> *final(self) == *old(self),
            r is Err && events_ok(old(self).slots(), device@, midi_message, now) ==> exists|t: int|
                #[trigger] first_failing_start(slots_before_starts(old(self).slots(), device@, midi_message, now), device@, midi_message, now, t)
                && final(self).slots() == partly_started(slots_before_starts(old(self).slots(), device@, midi_message, now), device@, midi_message, now, t)
                && last_events_map(final(self).last_events()) == recorded_upto(
                    last_events_map(old(self).last_events()),
                    old(self).slots(),
                    device@,
                    midi_message,
                    t + 1,
                ),
            r matches Ok(acts) ==> {
                &&& final(self).slots() == patch_event_slots(old(self).slots(), device@, midi_message, now)
                &&& acts.deep_view() == patch_event_actions(old(self).slots(), device@, midi_message, now)
                &&& last_events_map(final(self).last_events()) == recorded_upto(
                    last_events_map(old(self).last_events()),
                    old(self).slots(),
                    device@,
                    midi_message,
                    old(self).slots().len() as int,
                )
            },
            final(self).patch_name() == old(self).patch_name(),
            final(self).program_number() == old(self).program_number(),
            final(self).light() == old(self).light(),
    {
        let ghost es0 = self.effects@;
        let ghost last0 = last_events_map(self.last_midi_events@);
        if !self.can_handle_event(device, midi_message, now) {
            return Err(PatchError::EffectFailure);
        }
        let n = self.effects.len();
        let mut acts: Vec<PatchAction> = Vec::new();
        let mut j: usize = 0;
        while j < n
            invariant
                n == es0.len(),
                self.effects@.len() == n,
                j <= n,
                all_inv(es0),
                all_inv(self.effects@),
                events_ok(es0, device@, midi_message, now),
                distinct_keys(self.last_midi_events@),
                self.last_midi_events@ == old(self).last_midi_events@,
                self.name@ == old(self).name@,
                self.program == old(self).program,
                self.midi_light_patch == old(self).midi_light_patch,
                forall|x: int| 0 <= x < n ==> #[trigger] self.effects@[x] == if x < j { evented_slots(es0, device@, midi_message, now)[x] } else { es0[x] },
                acts.deep_view() == event_actions_upto(es0, device@, midi_message, now, j as int),
            decreases n - j,
        {
            proof {
                es0[j as int].1.lemma_event_keeps_mode(device@, midi_message, now);
                assert(es0[j as int].1.event_ok(device@, midi_message, now));
            }
            let slot = &mut self.effects[j];
            let outs = slot.1.on_midi_event(device, midi_message, now);
            push_sends(&mut acts, outs);
            j = j + 1;
        }
        assert(self.effects@ =~= evented_slots(es0, device@, midi_message, now));
        let ghost es1 = self.effects@;
        let mut groups: Vec<MonoGroup> = Vec::new();
        let mut k: usize = 0;
        while k < n
            invariant
                n == es1.len(),
                self.effects@ == es1,
                all_inv(es1),
                events_ok(es0, device@, midi_message, now),
                k <= n,
                groups@ == triggered_groups(es1, device@, midi_message, k as int),
            decreases n - k,
        {
            if self.effects[k].0.is_triggered(device, midi_message) {
                let g = self.effects[k].1.mono_group();
                if g != MonoGroup::Ungrouped {
                    groups.push(g);
                }
            }
            k = k + 1;
            assert(groups@ =~= triggered_groups(es1, device@, midi_message, k as int));
        }
        let ghost acts1 = acts.deep_view();
        let mut gi: usize = 0;
        while gi < groups.len()
            invariant
                n == es1.len(),
                all_inv(es1),
                events_ok(es0, device@, midi_message, now),
                gi <= groups@.len(),
                groups@ == triggered_groups(es1, device@, midi_message, n as int),
                self.inv(),
                self.effects@ == group_stops(es1, groups@, gi as int).0,
                acts.deep_view() == acts1 + group_stops(es1, groups@, gi as int).1,
                self.last_midi_events@ == old(self).last_midi_events@,
                self.name@ == old(self).name@,
                self.program == old(self).program,
                self.midi_light_patch == old(self).midi_light_patch,
            decreases groups@.len() - gi,
        {
            proof {
                lemma_group_stops_shape(es1, groups@, gi as int);
            }
            let ghost before = acts.deep_view();
            let ghost prev = group_stops(es1, groups@, gi as int);
            let mut stops = self.stop_matching(Some(groups[gi]));
            let ghost sv = stops.deep_view();
            assert(sv == stop_actions_upto(prev.0, Some(groups@[gi as int]), prev.0.len() as int));
            acts.append(&mut stops);
            assert(acts.deep_view() =~= before + sv);
            assert(group_stops(es1, groups@, gi + 1).1 == prev.1 + sv);
            gi = gi + 1;
            assert(acts.deep_view() =~= acts1 + group_stops(es1, groups@, gi as int).1);
        }
        proof {
            lemma_group_stops_shape(es1, groups@, groups@.len() as int);
        }
        let ghost es2 = self.effects@;
        assert(es2 == slots_before_starts(es0, device@, midi_message, now));
        let ghost acts2 = acts.deep_view();
        let mut t: usize = 0;
        while t < n
            invariant
                n == es2.len(),
                n == es0.len(),
                es0 == old(self).effects@,
                events_ok(es0, device@, midi_message, now),
                last0 == last_events_map(old(self).last_midi_events@),
                es2 == slots_before_starts(es0, device@, midi_message, now),
                all_inv(es2),
                all_inv(self.effects@),
                self.effects@.len() == n,
                forall|x: int| 0 <= x < n ==> (#[trigger] es2[x]).0 == es0[x].0,
                t <= n,
                distinct_keys(self.last_midi_events@),
                forall|x: int| 0 <= x < n ==> #[trigger] self.effects@[x] == if x < t { started_slots(es2, device@, midi_message, now)[x] } else { es2[x] },
                forall|x: int| 0 <= x < t && slot_triggered(es2[x], device@, midi_message) ==> #[trigger] ready(es2[x].1).start_ok(midi_message, now),
                acts.deep_view() == acts2 + start_actions_upto(es2, device@, midi_message, now, t as int),
                last_events_map(self.last_midi_events@) == recorded_upto(last0, es0, device@, midi_message, t as int),
                self.name@ == old(self).name@,
                self.program == old(self).program,
                self.midi_light_patch == old(self).midi_light_patch,
            decreases n - t,
        {
            if self.effects[t].0.is_triggered(device, midi_message) {
                insert_last_event(&mut self.last_midi_events, &self.effects[t].0, midi_message);
                let ghost e = es2[t as int].1;
                let slot = &mut self.effects[t];
                let started = start_effect(&mut slot.1, t, midi_message, now, &mut acts);
                if !started {
                    proof {
                        assert(slot_triggered(es2[t as int], device@, midi_message));
                        assert(!starts_ok(es2, device@, midi_message, now));
                        assert(!patch_event_ok(es0, device@, midi_message, now));
                        assert(first_failing_start(es2, device@, midi_message, now, t as int));
                        assert(self.effects@ =~= partly_started(es2, device@, midi_message, now, t as int));
                        assert(last_events_map(self.last_midi_events@) == recorded_upto(last0, es0, device@, midi_message, t + 1));
                        assert(first_failing_start(slots_before_starts(old(self).slots(), device@, midi_message, now), device@, midi_message, now, t as int)
                            && self.slots() == partly_started(slots_before_starts(old(self).slots(), device@, midi_message, now), device@, midi_message, now, t as int)
                            && last_events_map(self.last_events()) == recorded_upto(
                                last_events_map(old(self).last_events()), old(self).slots(), device@, midi_message, t + 1));
                    }
                    return Err(PatchError::EffectFailure);
                }
                assert(es2[t as int].1 == e);
                assert(start_actions_upto(es2, device@, midi_message, now, t + 1) == start_actions_upto(es2, device@, midi_message, now, t as int) + start_actions(t as int, e, midi_message, now));
                assert(acts.deep_view() =~= acts2 + start_actions_upto(es2, device@, midi_message, now, t + 1));
            } else {
                assert(acts.deep_view() =~= acts2 + start_actions_upto(es2, device@, midi_message, now, t + 1));
            }
            t = t + 1;
        }
        assert(self.effects@ =~= started_slots(es2, device@, midi_message, now));
        Ok(acts)
    }

    /// Stops every running effect.
    pub fn stop_running_effects(&mut self) -> (acts: Vec<PatchAction>)
        requires
            old(self).inv(),
        ensures
            final(self).inv(),
            final(self).slots() == stopped_slots(old(self).slots(), None),
            acts.deep_view() == stop_actions_upto(old(self).slots(), None, old(self).slots().len() as int),
            final(self).patch_name() == old(self).patch_name(),
            final(self).last_events() == old(self).last_events(),
            final(self).program_number() == old(self).program_number(),
            final(self).light() == old(self).light(),
    {
        self.stop_matching(None)
    }
}

/// After stopping the running effects of a patch, none of them runs.
pub proof fn lemma_stop_all_halts(es: Seq<Slot>)
    requires
        all_inv(es),
    ensures
        all_inv(stopped_slots(es, None)),
        forall|j: int| 0 <= j < es.len() ==> !(#[trigger] stopped_slots(es, None)[j]).1.running(),
{
    assert forall|j: int| 0 <= j < es.len() implies !(#[trigger] stopped_slots(es, None)[j]).1.running() by {
        es[j].1.lemma_stop_halts();
    }
    assert forall|j: int| 0 <= j < es.len() implies (#[trigger] stopped_slots(es, None)[j]).1.inv() by {
        es[j].1.lemma_stop_halts();
    }
}

/// Records `m` as the last message of the trigger `t`.
fn insert_last_event(ls: &mut Vec<(Trigger, MidiMessage)>, t: &Trigger, m: MidiMessage)
    requires
        distinct_keys(old(ls)@),
    ensures
        distinct_keys(final(ls)@),
        last_events_map(final(ls)@) == last_events_map(old(ls)@).insert(t@, m),
{
    let n = ls.len();
    let mut i: usize = 0;
    while i < n
        invariant
            n == ls@.len(),
            ls@ == old(ls)@,
            distinct_keys(ls@),
            i <= n,
            forall|k: int| 0 <= k < i ==> ls@[k].0@ != t@,
        decreases n - i,
    {
        if ls[i].0.same_as(t) {
            let ghost before = ls@;
            let slot = &mut ls[i];
            slot.1 = m;
            proof {
                assert(ls@ =~= before.update(i as int, (before[i as int].0, m)));
                lemma_map_update(before, i as int, m);
            }
            return;
        }
        i = i + 1;
    }
    let ghost before = ls@;
    ls.push((t.duplicate(), m));
    proof {
        assert(ls@.drop_last() =~= before);
        assert forall|a: int, b: int| 0 <= a < b < ls@.len() implies #[trigger] ls@[a].0@ != #[trigger] ls@[b].0@ by {
            if b == ls@.len() - 1 {
                assert(ls@[a] == before[a]);
            } else {
                assert(ls@[a] == before[a]);
                assert(ls@[b] == before[b]);
            }
        }
    }
}

/// The slots after every effect handled the event.
pub open spec fn evented_slots(es: Seq<Slot>, device: Seq<char>, m: MidiMessage, now: u64) -> Seq<Slot> {
    Seq::new(es.len(), |i: int| (es[i].0, es[i].1.on_event(device, m, now).0))
}

/// The actions of the first `k` effects' handling of the event, in order.
pub open spec fn event_actions_upto(es: Seq<Slot>, device: Seq<char>, m: MidiMessage, now: u64, k: int) -> Seq<PatchActionView>
    decreases k,
{
    if k <= 0 {
        Seq::empty()
    } else {
        event_actions_upto(es, device, m, now, k - 1) + sends(es[k - 1].1.on_event(device, m, now).1)
    }
}

pub open spec fn slot_triggered(s: Slot, device: Seq<char>, m: MidiMessage) -> bool {
    triggered_by(s.0@, device, m)
}

/// The groups of the triggered effects among the first `k`, other than
/// `Ungrouped`, in order.
pub open spec fn triggered_groups(es: Seq<Slot>, device: Seq<char>, m: MidiMessage, k: int) -> Seq<MonoGroup>
    decreases k,
{
    if k <= 0 {
        Seq::empty()
    } else {
        triggered_groups(es, device, m, k - 1) + if slot_triggered(es[k - 1], device, m)
            && es[k - 1].1.group() != MonoGroup::Ungrouped {
            seq![es[k - 1].1.group()]
        } else {
            Seq::empty()
        }
    }
}

/// The slots and actions after stopping the running effects of the first
/// `k` groups, group by group.
pub open spec fn group_stops(es: Seq<Slot>, groups: Seq<MonoGroup>, k: int) -> (Seq<Slot>, Seq<PatchActionView>)
    decreases k,
{
    if k <= 0 {
        (es, Seq::empty())
    } else {
        let (es1, acts) = group_stops(es, groups, k - 1);
        (
            stopped_slots(es1, Some(groups[k - 1])),
            acts + stop_actions_upto(es1, Some(groups[k - 1]), es1.len() as int),
        )
    }
}

/// The effect ready to start: stopped if it runs.
pub open spec fn ready(e: AnyEffect) -> AnyEffect {
    if e.running() {
        e.on_stop().0
    } else {
        e
    }
}

/// The actions of starting the effect `e` at index `i`: a running effect is
/// stopped first; then the start's events are sent and its job, if any, is
/// handed over.
pub open spec fn start_actions(i: int, e: AnyEffect, m: MidiMessage, now: u64) -> Seq<PatchActionView> {
    let o = ready(e).on_start(m, now).1;
    (if e.running() { stop_actions(i, e) } else { Seq::empty() }) + sends(o.messages) + match o.job {
        Some(j) => seq![PatchActionView::StartJob(i as usize, j)],
        None => Seq::empty(),
    }
}

/// The slots after starting every triggered effect.
pub open spec fn started_slots(es: Seq<Slot>, device: Seq<char>, m: MidiMessage, now: u64) -> Seq<Slot> {
    Seq::new(es.len(), |i: int| if slot_triggered(es[i], device, m) { (es[i].0, ready(es[i].1).on_start(m, now).0) } else { es[i] })
}

/// The actions of starting the triggered effects among the first `k`.
pub open spec fn start_actions_upto(es: Seq<Slot>, device: Seq<char>, m: MidiMessage, now: u64, k: int) -> Seq<PatchActionView>
    decreases k,
{
    if k <= 0 {
        Seq::empty()
    } else {
        start_actions_upto(es, device, m, now, k - 1) + if slot_triggered(es[k - 1], device, m) {
            start_actions(k - 1, es[k - 1].1, m, now)
        } else {
            Seq::empty()
        }
    }
}

/// The last events after recording `m` for the triggers of the triggered
/// effects among the first `k`.
pub open spec fn recorded_upto(last: Map<(Seq<char>, u8), MidiMessage>, es: Seq<Slot>, device: Seq<char>, m: MidiMessage, k: int) -> Map<(Seq<char>, u8), MidiMessage>
    decreases k,
{
    if k <= 0 {
        last
    } else if slot_triggered(es[k - 1], device, m) {
        recorded_upto(last, es, device, m, k - 1).insert(es[k - 1].0@, m)
    } else {
        recorded_upto(last, es, device, m, k - 1)
    }
}

/// The `t`-th slot is the first triggered one whose effect, once ready,
/// cannot start.
pub open spec fn first_failing_start(es: Seq<Slot>, device: Seq<char>, m: MidiMessage, now: u64, t: int) -> bool {
    &&& 0 <= t < es.len()
    &&& slot_triggered(es[t], device, m)
    &&& !ready(es[t].1).start_ok(m, now)
    &&& forall|x: int| 0 <= x < t && slot_triggered(es[x], device, m) ==> #[trigger] ready(es[x].1).start_ok(m, now)
}

/// The slots when the start of slot `t` fails: the triggered slots before
/// it started, slot `t` ready (stopped if it ran), the rest as they were.
pub open spec fn partly_started(es: Seq<Slot>, device: Seq<char>, m: MidiMessage, now: u64, t: int) -> Seq<Slot> {
    Seq::new(es.len(), |x: int| if x < t {
        started_slots(es, device, m, now)[x]
    } else if x == t {
        (es[x].0, ready(es[x].1))
    } else {
        es[x]
    })
}

/// Every effect can handle the event.
pub open spec fn events_ok(es: Seq<Slot>, device: Seq<char>, m: MidiMessage, now: u64) -> bool {
    forall|i: int| 0 <= i < es.len() ==> #[trigger] es[i].1.event_ok(device, m, now)
}

/// Every triggered effect can be started once it is ready.
pub open spec fn starts_ok(es: Seq<Slot>, device: Seq<char>, m: MidiMessage, now: u64) -> bool {
    forall|i: int| 0 <= i < es.len() && slot_triggered(es[i], device, m) ==> #[trigger] ready(es[i].1).start_ok(m, now)
}

/// The slots after the effects handled the event and the running effects
/// of the triggered groups were stopped.
pub open spec fn slots_before_starts(es: Seq<Slot>, device: Seq<char>, m: MidiMessage, now: u64) -> Seq<Slot> {
    let es1 = evented_slots(es, device, m, now);
    let groups = triggered_groups(es1, device, m, es1.len() as int);
    group_stops(es1, groups, groups.len() as int).0
}

/// The event can be handled without a failure of an effect.
pub open spec fn patch_event_ok(es: Seq<Slot>, device: Seq<char>, m: MidiMessage, now: u64) -> bool {
    events_ok(es, device, m, now) && starts_ok(slots_before_starts(es, device, m, now), device, m, now)
}

/// The slots after the event.
pub open spec fn patch_event_slots(es: Seq<Slot>, device: Seq<char>, m: MidiMessage, now: u64) -> Seq<Slot> {
    started_slots(slots_before_starts(es, device, m, now), device, m, now)
}

/// The actions of the event: the effects' events, the stops of the
/// triggered groups, then the starts of the triggered effects.
pub open spec fn patch_event_actions(es: Seq<Slot>, device: Seq<char>, m: MidiMessage, now: u64) -> Seq<PatchActionView> {
    let es1 = evented_slots(es, device, m, now);
    let groups = triggered_groups(es1, device, m, es1.len() as int);
    let es2 = group_stops(es1, groups, groups.len() as int).0;
    event_actions_upto(es, device, m, now, es.len() as int)
        + group_stops(es1, groups, groups.len() as int).1
        + start_actions_upto(es2, device, m, now, es2.len() as int)
}

proof fn lemma_stopped_slots_shape(es: Seq<Slot>, group: Option<MonoGroup>)
    requires
        all_inv(es),
    ensures
        stopped_slots(es, group).len() == es.len(),
        all_inv(stopped_slots(es, group)),
        forall|i: int| 0 <= i < es.len() ==> (#[trigger] stopped_slots(es, group)[i]).0 == es[i].0,
{
    assert forall|i: int| 0 <= i < es.len() implies (#[trigger] stopped_slots(es, group)[i]).1.inv() by {
        es[i].1.lemma_stop_halts();
    }
}

proof fn lemma_group_stops_shape(es: Seq<Slot>, groups: Seq<MonoGroup>, k: int)
    requires
        all_inv(es),
        0 <= k <= groups.len(),
    ensures
        group_stops(es, groups, k).0.len() == es.len(),
        all_inv(group_stops(es, groups, k).0),
        forall|i: int| 0 <= i < es.len() ==> (#[trigger] group_stops(es, groups, k).0[i]).0 == es[i].0,
    decreases k,
{
    if k > 0 {
        lemma_group_stops_shape(es, groups, k - 1);
        lemma_stopped_slots_shape(group_stops(es, groups, k - 1).0, Some(groups[k - 1]));
    }
}

proof fn lemma_group_listed(es: Seq<Slot>, device: Seq<char>, m: MidiMessage, k: int, i: int)
    requires
        0 <= i < k <= es.len(),
        slot_triggered(es[i], device, m),
        es[i].1.group() != MonoGroup::Ungrouped,
    ensures
        exists|q: int| 0 <= q < triggered_groups(es, device, m, k).len() && triggered_groups(es, device, m, k)[q] == es[i].1.group(),
    decreases k,
{
    let gs = triggered_groups(es, device, m, k);
    if i == k - 1 {
        let q = gs.len() - 1;
        assert(gs[q] == es[i].1.group());
    } else {
        lemma_group_listed(es, device, m, k - 1, i);
        let prev = triggered_groups(es, device, m, k - 1);
        let q = choose|q: int| 0 <= q < prev.len() && prev[q] == es[i].1.group();
        assert(gs[q] == prev[q]);
    }
}

proof fn lemma_group_stops_halt(es: Seq<Slot>, groups: Seq<MonoGroup>, k: int)
    requires
        all_inv(es),
        0 <= k <= groups.len(),
    ensures
        forall|j: int| 0 <= j < es.len() ==> (#[trigger] group_stops(es, groups, k).0[j]).1.group() == es[j].1.group(),
        forall|j: int, q: int| 0 <= j < es.len() && 0 <= q < k && (#[trigger] group_stops(es, groups, k).0[j]).1.group() == #[trigger] groups[q]
            ==> !group_stops(es, groups, k).0[j].1.running(),
    decreases k,
{
    if k > 0 {
        lemma_group_stops_halt(es, groups, k - 1);
        lemma_group_stops_shape(es, groups, k - 1);
        let es1 = group_stops(es, groups, k - 1).0;
        let es2 = group_stops(es, groups, k).0;
        assert forall|j: int| 0 <= j < es.len() implies (#[trigger] es2[j]).1.group() == es[j].1.group()
            && (es2[j].1.group() == groups[k - 1] ==> !es2[j].1.running()) by {
            es1[j].1.lemma_stop_halts();
        }
        assert forall|j: int, q: int| 0 <= j < es.len() && 0 <= q < k && (#[trigger] es2[j]).1.group() == #[trigger] groups[q]
            implies !es2[j].1.running() by {
            es1[j].1.lemma_stop_halts();
            if q < k - 1 {
                assert(es1[j].1.group() == groups[q]);
            }
        }
    }
}

/// Triggering an effect of a group stops every effect of that group that the
/// event does not trigger as well.
pub proof fn lemma_mono_group_exclusive(es: Seq<Slot>, device: Seq<char>, m: MidiMessage, now: u64, i: int, j: int)
    requires
        all_inv(es),
        patch_event_ok(es, device, m, now),
        0 <= i < es.len(),
        0 <= j < es.len(),
        slot_triggered(es[i], device, m),
        !slot_triggered(es[j], device, m),
        es[i].1.group() != MonoGroup::Ungrouped,
        es[j].1.group() == es[i].1.group(),
    ensures
        !patch_event_slots(es, device, m, now)[j].1.running(),
{
    let es1 = evented_slots(es, device, m, now);
    assert forall|x: int| 0 <= x < es.len() implies (#[trigger] es1[x]).1.inv() && es1[x].1.group() == es[x].1.group() by {
        assert(es[x].1.event_ok(device, m, now));
        es[x].1.lemma_event_keeps_mode(device, m, now);
    }
    let gs = triggered_groups(es1, device, m, es1.len() as int);
    lemma_group_listed(es1, device, m, es1.len() as int, i);
    let q = choose|q: int| 0 <= q < gs.len() && gs[q] == es1[i].1.group();
    lemma_group_stops_halt(es1, gs, gs.len() as int);
    lemma_group_stops_shape(es1, gs, gs.len() as int);
    let es2 = group_stops(es1, gs, gs.len() as int).0;
    assert(es2[j].1.group() == gs[q]);
    assert(es2[j].0 == es[j].0);
}

/// Some triggered effect among the first `k` has the trigger `key`.
pub open spec fn trigger_touched(es: Seq<Slot>, device: Seq<char>, m: MidiMessage, k: int, key: (Seq<char>, u8)) -> bool {
    exists|i: int| 0 <= i < k && slot_triggered(es[i], device, m) && es[i].0@ == key
}

/// After an event, the last event of the trigger of every triggered effect
/// is that event; the last events of other triggers stay as they were.
pub proof fn lemma_records_triggers(last: Map<(Seq<char>, u8), MidiMessage>, es: Seq<Slot>, device: Seq<char>, m: MidiMessage, k: int)
    requires
        0 <= k <= es.len(),
    ensures
        recorded_upto(last, es, device, m, k) == Map::new(
            |key: (Seq<char>, u8)| last.contains_key(key) || trigger_touched(es, device, m, k, key),
            |key: (Seq<char>, u8)| if trigger_touched(es, device, m, k, key) { m } else { last[key] },
        ),
    decreases k,
{
    let target = Map::new(
        |key: (Seq<char>, u8)| last.contains_key(key) || trigger_touched(es, device, m, k, key),
        |key: (Seq<char>, u8)| if trigger_touched(es, device, m, k, key) { m } else { last[key] },
    );
    if k == 0 {
        assert(recorded_upto(last, es, device, m, k) =~= target);
    } else {
        lemma_records_triggers(last, es, device, m, k - 1);
        assert forall|key: (Seq<char>, u8)| trigger_touched(es, device, m, k, key) <==>
            (trigger_touched(es, device, m, k - 1, key) || (slot_triggered(es[k - 1], device, m) && es[k - 1].0@ == key)) by {
            if trigger_touched(es, device, m, k, key) {
                let i = choose|i: int| 0 <= i < k && slot_triggered(es[i], device, m) && es[i].0@ == key;
                if i < k - 1 {
                    assert(trigger_touched(es, device, m, k - 1, key));
                }
            }
            if slot_triggered(es[k - 1], device, m) && es[k - 1].0@ == key {
                assert(0 <= k - 1 < k && slot_triggered(es[k - 1], device, m) && es[k - 1].0@ == key);
            }
        }
        assert(recorded_upto(last, es, device, m, k) =~= target);
    }
}

proof fn lemma_map_lookup(ls: Seq<(Trigger, MidiMessage)>, i: int)
    requires
        distinct_keys(ls),
        0 <= i < ls.len(),
    ensures
        last_events_map(ls).contains_key(ls[i].0@),
        last_events_map(ls)[ls[i].0@] == ls[i].1,
    decreases ls.len(),
{
    if i < ls.len() - 1 {
        lemma_map_lookup(ls.drop_last(), i);
        assert(ls.drop_last()[i] == ls[i]);
        assert(ls.last().0@ != ls[i].0@);
    }
}

/// The last event recorded for the trigger `t`, if any.
fn find_last_event(ls: &Vec<(Trigger, MidiMessage)>, t: &Trigger) -> (r: Option<MidiMessage>)
    requires
        distinct_keys(ls@),
    ensures
        r == (if last_events_map(ls@).contains_key(t@) { Some(last_events_map(ls@)[t@]) } else { None }),
{
    let n = ls.len();
    let mut i: usize = 0;
    while i < n
        invariant
            n == ls@.len(),
            distinct_keys(ls@),
            i <= n,
            forall|k: int| 0 <= k < i ==> ls@[k].0@ != t@,
        decreases n - i,
    {
        if ls[i].0.same_as(t) {
            proof {
                lemma_map_lookup(ls@, i as int);
            }
            return Some(ls[i].1);
        }
        i = i + 1;
    }
    proof {
        lemma_map_keys(ls@, t@);
        if last_events_map(ls@).contains_key(t@) {
            let k = choose|k: int| 0 <= k < ls@.len() && ls@[k].0@ == t@;
            assert(ls@[k].0@ != t@);
        }
    }
    None
}

/// Some running effect of the slots has the trigger `key`.
pub open spec fn was_running(es: Seq<Slot>, key: (Seq<char>, u8)) -> bool {
    exists|i: int| 0 <= i < es.len() && es[i].1.running() && es[i].0@ == key
}

/// A slot of an updated patch restarts: its trigger's effect ran before the
/// update, and the trigger has a last event.
pub open spec fn restarts(s: Slot, old_slots: Seq<Slot>, last: Map<(Seq<char>, u8), MidiMessage>) -> bool {
    was_running(old_slots, s.0@) && last.contains_key(s.0@)
}

pub open spec fn restarted_slots(es: Seq<Slot>, old_slots: Seq<Slot>, last: Map<(Seq<char>, u8), MidiMessage>, now: u64) -> Seq<Slot> {
    Seq::new(es.len(), |i: int| if restarts(es[i], old_slots, last) {
        (es[i].0, ready(es[i].1).on_start(last[es[i].0@], now).0)
    } else {
        es[i]
    })
}

pub open spec fn restart_actions_upto(es: Seq<Slot>, old_slots: Seq<Slot>, last: Map<(Seq<char>, u8), MidiMessage>, now: u64, k: int) -> Seq<PatchActionView>
    decreases k,
{
    if k <= 0 {
        Seq::empty()
    } else {
        restart_actions_upto(es, old_slots, last, now, k - 1) + if restarts(es[k - 1], old_slots, last) {
            start_actions(k - 1, es[k - 1].1, last[es[k - 1].0@], now)
        } else {
            Seq::empty()
        }
    }
}

/// The `t`-th slot is the first restarting one whose effect, once ready,
/// cannot start.
pub open spec fn first_failing_restart(es: Seq<Slot>, old_slots: Seq<Slot>, last: Map<(Seq<char>, u8), MidiMessage>, now: u64, t: int) -> bool {
    &&& 0 <= t < es.len()
    &&& restarts(es[t], old_slots, last)
    &&& !ready(es[t].1).start_ok(last[es[t].0@], now)
    &&& forall|x: int| 0 <= x < t && restarts(es[x], old_slots, last) ==> #[trigger] ready(es[x].1).start_ok(last[es[x].0@], now)
}

/// The slots when the restart of slot `t` fails: the restarting slots
/// before it restarted, slot `t` ready, the rest as they were.
pub open spec fn partly_restarted(es: Seq<Slot>, old_slots: Seq<Slot>, last: Map<(Seq<char>, u8), MidiMessage>, now: u64, t: int) -> Seq<Slot> {
    Seq::new(es.len(), |x: int| if x < t {
        restarted_slots(es, old_slots, last, now)[x]
    } else if x == t {
        (es[x].0, ready(es[x].1))
    } else {
        es[x]
    })
}

/// Every restarting effect can be started once it is ready.
pub open spec fn restarts_ok(es: Seq<Slot>, old_slots: Seq<Slot>, last: Map<(Seq<char>, u8), MidiMessage>, now: u64) -> bool {
    forall|i: int| 0 <= i < es.len() && restarts(es[i], old_slots, last) ==> #[trigger] ready(es[i].1).start_ok(last[es[i].0@], now)
}

pub open spec fn trigger_listed(ts: Seq<Trigger>, key: (Seq<char>, u8)) -> bool {
    exists|i: int| 0 <= i < ts.len() && ts[i]@ == key
}

pub open spec fn running_upto(es: Seq<Slot>, k: int, key: (Seq<char>, u8)) -> bool {
    exists|x: int| 0 <= x < k && es[x].1.running() && es[x].0@ == key
}

/// Whether one of the triggers has the value `t`.
fn has_trigger(ts: &Vec<Trigger>, t: &Trigger) -> (b: bool)
    ensures
        b == trigger_listed(ts@, t@),
{
    let mut i: usize = 0;
    while i < ts.len()
        invariant
            i <= ts@.len(),
            forall|k: int| 0 <= k < i ==> ts@[k]@ != t@,
        decreases ts@.len() - i,
    {
        if ts[i].same_as(t) {
            return true;
        }
        i = i + 1;
    }
    false
}

impl Patch {
    /// Replaces the patch by a new version of it, keeping the last events:
    /// the running effects stop, the new version's light show is set up, and
    /// each effect of the new version whose trigger had a running effect is
    /// started again by that trigger's last event.
    pub fn update_from(&mut self, patch: Patch, now: u64) -> (r: Result<Vec<PatchAction>, PatchError>)
        requires
            old(self).inv(),
            patch.inv(),
        ensures
            final(self).inv(),
            r is Ok <==> restarts_ok(patch.slots(), old(self).slots(), last_events_map(old(self).last_events()), now),
            r is Err ==> exists|t: int|
                #[trigger] first_failing_restart(patch.slots(), old(self).slots(), last_events_map(old(self).last_events()), now, t)
                && final(self).slots() == partly_restarted(patch.slots(), old(self).slots(), last_events_map(old(self).last_events()), now, t),
            r matches Ok(acts) ==> {
                &&& final(self).slots() == restarted_slots(patch.slots(), old(self).slots(), last_events_map(old(self).last_events()), now)
                &&& acts.deep_view() == stop_actions_upto(old(self).slots(), None, old(self).slots().len() as int)
                    + init_actions(patch.light())
                    + restart_actions_upto(patch.slots(), old(self).slots(), last_events_map(old(self).last_events()), now, patch.slots().len() as int)
            },
            final(self).patch_name() == patch.patch_name(),
            final(self).program_number() == patch.program_number(),
            final(self).light() == patch.light(),
            final(self).last_events() == old(self).last_events(),
    {
        let ghost old_slots = self.effects@;
        let ghost last = last_events_map(self.last_midi_events@);
        let mut running_triggers: Vec<Trigger> = Vec::new();
        let n = self.effects.len();
        let mut i: usize = 0;
        while i < n
            invariant
                n == old_slots.len(),
                self.effects@ == old_slots,
                all_inv(old_slots),
                i <= n,
                forall|key: (Seq<char>, u8)| #[trigger] trigger_listed(running_triggers@, key) <==> running_upto(old_slots, i as int, key),
            decreases n - i,
        {
            let ghost before = running_triggers@;
            if self.effects[i].1.is_running() {
                running_triggers.push(self.effects[i].0.duplicate());
            }
            proof {
                assert forall|key: (Seq<char>, u8)| #[trigger] trigger_listed(running_triggers@, key) <==> running_upto(old_slots, i + 1, key) by {
                    assert(trigger_listed(before, key) <==> running_upto(old_slots, i as int, key));
                    if trigger_listed(running_triggers@, key) {
                        let k = choose|k: int| 0 <= k < running_triggers@.len() && running_triggers@[k]@ == key;
                        if k < before.len() {
                            assert(before[k] == running_triggers@[k]);
                            assert(trigger_listed(before, key));
                            let x = choose|x: int| 0 <= x < i && old_slots[x].1.running() && old_slots[x].0@ == key;
                            assert(running_upto(old_slots, i + 1, key));
                        } else {
                            assert(running_upto(old_slots, i + 1, key));
                        }
                    }
                    if running_upto(old_slots, i + 1, key) {
                        let x = choose|x: int| 0 <= x < i + 1 && old_slots[x].1.running() && old_slots[x].0@ == key;
                        if x < i {
                            assert(running_upto(old_slots, i as int, key));
                            let k = choose|k: int| 0 <= k < before.len() && before[k]@ == key;
                            assert(running_triggers@[k] == before[k]);
                        } else {
                            assert(running_triggers@[running_triggers@.len() - 1]@ == key);
                        }
                    }
                }
            }
            i = i + 1;
        }
        let mut acts = self.stop_running_effects();
        let Patch { name, effects, last_midi_events: _, program, midi_light_patch } = patch;
        self.name = name;
        self.effects = effects;
        self.midi_light_patch = midi_light_patch;
        let mut init = self.init();
        acts.append(&mut init);
        self.program = program;
        let ghost new_slots = self.effects@;
        assert(new_slots == patch.effects@);
        let ghost acts1 = acts.deep_view();
        assert(acts1 =~= stop_actions_upto(old_slots, None, old_slots.len() as int) + init_actions(self.midi_light_patch));
        let m = self.effects.len();
        let mut t: usize = 0;
        while t < m
            invariant
                m == new_slots.len(),
                new_slots == patch.effects@,
                old_slots == old(self).effects@,
                all_inv(new_slots),
                all_inv(self.effects@),
                self.effects@.len() == m,
                distinct_keys(self.last_midi_events@),
                self.last_midi_events@ == old(self).last_midi_events@,
                last == last_events_map(self.last_midi_events@),
                forall|key: (Seq<char>, u8)| #[trigger] trigger_listed(running_triggers@, key) <==> was_running(old_slots, key),
                t <= m,
                forall|x: int| 0 <= x < m ==> #[trigger] self.effects@[x] == if x < t { restarted_slots(new_slots, old_slots, last, now)[x] } else { new_slots[x] },
                forall|x: int| 0 <= x < t && restarts(new_slots[x], old_slots, last) ==> #[trigger] ready(new_slots[x].1).start_ok(last[new_slots[x].0@], now),
                acts.deep_view() == acts1 + restart_actions_upto(new_slots, old_slots, last, now, t as int),
                self.name@ == patch.name@,
                self.program == patch.program,
                self.midi_light_patch == patch.midi_light_patch,
            decreases m - t,
        {
            let restart = has_trigger(&running_triggers, &self.effects[t].0);
            let last_event = find_last_event(&self.last_midi_events, &self.effects[t].0);
            if restart && last_event.is_some() {
                let message = last_event.unwrap();
                let ghost e = new_slots[t as int].1;
                let slot = &mut self.effects[t];
                let started = start_effect(&mut slot.1, t, message, now, &mut acts);
                if !started {
                    proof {
                        assert(trigger_listed(running_triggers@, new_slots[t as int].0@));
                        assert(restarts(new_slots[t as int], old_slots, last));
                        assert(!restarts_ok(new_slots, old_slots, last, now));
                        assert(first_failing_restart(new_slots, old_slots, last, now, t as int));
                        assert(self.effects@ =~= partly_restarted(new_slots, old_slots, last, now, t as int));
                        assert(first_failing_restart(patch.slots(), old(self).slots(), last_events_map(old(self).last_events()), now, t as int)
                            && self.slots() == partly_restarted(patch.slots(), old(self).slots(), last_events_map(old(self).last_events()), now, t as int));
                    }
                    return Err(PatchError::EffectFailure);
                }
            }
            assert(acts.deep_view() =~= acts1 + restart_actions_upto(new_slots, old_slots, last, now, t + 1));
            t = t + 1;
        }
        assert(self.effects@ =~= restarted_slots(new_slots, old_slots, last, now));
        Ok(acts)
    }
}

/// No action of `acts` starts the job of the effect at index `i`.
pub open spec fn starts_no_job_of(acts: Seq<PatchActionView>, i: int) -> bool {
    forall|x: int| 0 <= x < acts.len() ==> !(#[trigger] acts[x] matches PatchActionView::StartJob(j, _) && j == i)
}

proof fn lemma_starts_no_job_concat(a: Seq<PatchActionView>, b: Seq<PatchActionView>, i: int)
    requires
        starts_no_job_of(a, i),
        starts_no_job_of(b, i),
    ensures
        starts_no_job_of(a + b, i),
{
    assert forall|x: int| 0 <= x < (a + b).len() implies !(#[trigger] (a + b)[x] matches PatchActionView::StartJob(j, _) && j == i) by {
        if x < a.len() {
            assert((a + b)[x] == a[x]);
        } else {
            assert((a + b)[x] == b[x - a.len()]);
        }
    }
}

/// The actions of starting the effect at index `j` start no other job.
proof fn lemma_start_actions_own_job(j: int, e: AnyEffect, m: MidiMessage, now: u64, i: int)
    requires
        0 <= j <= usize::MAX,
        0 <= i <= usize::MAX,
        j != i,
    ensures
        starts_no_job_of(start_actions(j, e, m, now), i),
{
    let o = ready(e).on_start(m, now).1;
    let a = if e.running() { stop_actions(j, e) } else { Seq::empty() };
    let b = sends(o.messages);
    let c = match o.job {
        Some(jv) => seq![PatchActionView::StartJob(j as usize, jv)],
        None => Seq::<PatchActionView>::empty(),
    };
    assert(starts_no_job_of(a, i)) by {
        if e.running() {
            lemma_starts_no_job_concat(seq![PatchActionView::StopJob(j as usize)], sends(e.on_stop().1), i);
        }
    }
    lemma_starts_no_job_concat(a, b, i);
    lemma_starts_no_job_concat(a + b, c, i);
}

/// An update restarts only the effects whose trigger had a running effect
/// in the old version: a slot of the new version whose trigger had none is
/// kept as it is, and no action starts its job.
pub proof fn lemma_only_running_triggers_restart(es: Seq<Slot>, old_slots: Seq<Slot>, last: Map<(Seq<char>, u8), MidiMessage>, now: u64, i: int, k: int)
    requires
        es.len() <= usize::MAX,
        0 <= i < es.len(),
        0 <= k <= es.len(),
        forall|j: int| 0 <= j < old_slots.len() && old_slots[j].0@ == es[i].0@ ==> !(#[trigger] old_slots[j].1.running()),
    ensures
        restarted_slots(es, old_slots, last, now)[i] == es[i],
        starts_no_job_of(restart_actions_upto(es, old_slots, last, now, k), i),
    decreases k,
{
    if k > 0 {
        lemma_only_running_triggers_restart(es, old_slots, last, now, i, k - 1);
        let tail = if restarts(es[k - 1], old_slots, last) {
            start_actions(k - 1, es[k - 1].1, last[es[k - 1].0@], now)
        } else {
            Seq::empty()
        };
        if restarts(es[k - 1], old_slots, last) {
            assert(k - 1 != i);
            lemma_start_actions_own_job(k - 1, es[k - 1].1, last[es[k - 1].0@], now, i);
        }
        lemma_starts_no_job_concat(restart_actions_upto(es, old_slots, last, now, k - 1), tail, i);
    }
}

/// An update restarts every effect of the new version whose trigger had a
/// running effect and a last event: it is started, ready, by that event.
pub proof fn lemma_running_triggers_restart(es: Seq<Slot>, old_slots: Seq<Slot>, last: Map<(Seq<char>, u8), MidiMessage>, now: u64, i: int, j: int)
    requires
        0 <= i < es.len(),
        0 <= j < old_slots.len(),
        old_slots[j].0@ == es[i].0@,
        old_slots[j].1.running(),
        last.contains_key(es[i].0@),
    ensures
        restarted_slots(es, old_slots, last, now)[i] == (es[i].0, ready(es[i].1).on_start(last[es[i].0@], now).0),
{
}

} // verus!
