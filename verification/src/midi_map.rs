//! MIDI controller mappings: per-context tables from CC and note numbers to
//! the control they drive.
use vstd::prelude::*;
use crate::sources::LooperSource;
use crate::text::owned;

verus! {

broadcast use vstd::string::group_string_axioms;

/// What an incoming controller or note message drives.
#[derive(Debug, Clone, Copy, PartialEq, Eq, Hash, Structural)]
pub enum MidiTarget {
    /// Synth parameter 0 to 7.
    Param(u8),
    /// 0 = play, 1 = stop, 2 = record.
    Transport(u8),
    LooperRecord(usize),
    LooperOverdub(usize),
    /// Record, play or overdub in turn, as a loop station pedal does.
    LooperToggle(usize),
    LooperSelect(usize),
    LooperClear(usize),
    LooperUndo(usize),
    /// Pause or resume a recorded part.
    LooperActiveToggle(usize),
    /// Route a legacy input channel (0 = mix) to a part.
    LooperSourceInput { part_id: usize, channel: u8 },
    LooperSource { part_id: usize, source: LooperSource },
    MicGain,
    Note(u8),
    /// 0 = swing, 1 = kit.
    MpcParam(u8),
    JamPlay,
    JamStop,
    JamNext,
    JamPrev,
}

/// The bindings of one context: controller or note number to target.
#[derive(Debug)]
pub struct ContextMap {
    pub context: String,
    pub bindings: Vec<(u8, MidiTarget)>,
}

/// The controller mapping: for each context, which CC and note numbers drive
/// which target, and the context that incoming messages are read in.
#[derive(Debug)]
pub struct MidiMap {
    pub cc_maps: Vec<ContextMap>,
    pub note_maps: Vec<ContextMap>,
    pub active_context: String,
}

/// The target bound to `number` in a list of bindings (the first binding of
/// that number).
pub open spec fn binding_lookup(bindings: Seq<(u8, MidiTarget)>, number: u8) -> Option<MidiTarget>
    decreases bindings.len(),
{
    if bindings.len() == 0 {
        None
    } else if bindings[0].0 == number {
        Some(bindings[0].1)
    } else {
        binding_lookup(bindings.drop_first(), number)
    }
}

/// The bindings of context `ctx` in a table (those of its first entry).
pub open spec fn context_bindings(table: Seq<ContextMap>, ctx: Seq<char>) -> Option<
    Seq<(u8, MidiTarget)>,
>
    decreases table.len(),
{
    if table.len() == 0 {
        None
    } else if table[0].context@ == ctx {
        Some(table[0].bindings@)
    } else {
        context_bindings(table.drop_first(), ctx)
    }
}

/// The bindings with `number` bound to `target`: an existing binding of the
/// number is replaced in place, otherwise the binding is appended.
pub open spec fn bindings_with(bindings: Seq<(u8, MidiTarget)>, number: u8, target: MidiTarget) -> Seq<
    (u8, MidiTarget),
>
    decreases bindings.len(),
{
    if bindings.len() == 0 {
        seq![(number, target)]
    } else if bindings[0].0 == number {
        bindings.update(0, (number, target))
    } else {
        seq![bindings[0]] + bindings_with(bindings.drop_first(), number, target)
    }
}

/// Whether no number is bound twice.
pub open spec fn bindings_unique(bindings: Seq<(u8, MidiTarget)>) -> bool {
    forall|i: int, j: int|
        0 <= i < j < bindings.len() ==> #[trigger] bindings[i].0 != #[trigger] bindings[j].0
}

/// Whether no context appears twice and no context binds a number twice.
pub open spec fn table_wf(table: Seq<ContextMap>) -> bool {
    &&& forall|i: int, j: int|
        0 <= i < j < table.len() ==> #[trigger] table[i].context@ != #[trigger] table[j].context@
    &&& forall|i: int| 0 <= i < table.len() ==> bindings_unique(#[trigger] table[i].bindings@)
}

proof fn lemma_binding_lookup_with(bindings: Seq<(u8, MidiTarget)>, number: u8, target: MidiTarget, n: u8)
    ensures
        binding_lookup(bindings_with(bindings, number, target), n) == if n == number {
            Some(target)
        } else {
            binding_lookup(bindings, n)
        },
    decreases bindings.len(),
{
    if bindings.len() == 0 {
        let w = seq![(number, target)];
        assert(w.drop_first() == Seq::<(u8, MidiTarget)>::empty());
        assert(binding_lookup(w.drop_first(), n) is None);
    } else if bindings[0].0 == number {
        let u = bindings.update(0, (number, target));
        assert(u[0] == (number, target));
        assert(u.drop_first() == bindings.drop_first());
    } else {
        lemma_binding_lookup_with(bindings.drop_first(), number, target, n);
        let w = seq![bindings[0]] + bindings_with(bindings.drop_first(), number, target);
        assert(w[0] == bindings[0]);
        assert(w.drop_first() == bindings_with(bindings.drop_first(), number, target));
    }
}

proof fn lemma_bindings_with_unique(bindings: Seq<(u8, MidiTarget)>, number: u8, target: MidiTarget)
    requires
        bindings_unique(bindings),
    ensures
        bindings_unique(bindings_with(bindings, number, target)),
        forall|k: int|
            0 <= k < bindings_with(bindings, number, target).len() ==> (#[trigger] bindings_with(
                bindings,
                number,
                target,
            )[k].0 == number || exists|m: int| 0 <= m < bindings.len() && bindings[m].0 == bindings_with(
                bindings,
                number,
                target,
            )[k].0),
    decreases bindings.len(),
{
    let w = bindings_with(bindings, number, target);
    if bindings.len() == 0 {
    } else if bindings[0].0 == number {
        assert forall|k: int| 0 <= k < w.len() implies (#[trigger] w[k].0 == number || exists|m: int|
            0 <= m < bindings.len() && bindings[m].0 == w[k].0) by {
            if k > 0 {
                assert(bindings[k].0 == w[k].0);
            }
        }
    } else {
        let rest = bindings.drop_first();
        assert forall|i: int, j: int| 0 <= i < j < rest.len() implies #[trigger] rest[i].0
            != #[trigger] rest[j].0 by {
            assert(rest[i] == bindings[i + 1]);
            assert(rest[j] == bindings[j + 1]);
        }
        lemma_bindings_with_unique(rest, number, target);
        let wr = bindings_with(rest, number, target);
        assert(w == seq![bindings[0]] + wr);
        assert forall|k: int| 0 <= k < w.len() implies (#[trigger] w[k].0 == number || exists|m: int|
            0 <= m < bindings.len() && bindings[m].0 == w[k].0) by {
            if k == 0 {
                assert(bindings[0].0 == w[0].0);
            } else {
                assert(w[k] == wr[k - 1]);
                if wr[k - 1].0 != number {
                    let m = choose|m: int| 0 <= m < rest.len() && rest[m].0 == wr[k - 1].0;
                    assert(bindings[m + 1].0 == w[k].0);
                }
            }
        }
        assert forall|i: int, j: int| 0 <= i < j < w.len() implies #[trigger] w[i].0
            != #[trigger] w[j].0 by {
            if i == 0 {
                assert(w[j] == wr[j - 1]);
                if wr[j - 1].0 == number {
                    assert(bindings[0].0 != number);
                } else {
                    let m = choose|m: int| 0 <= m < rest.len() && rest[m].0 == wr[j - 1].0;
                    assert(rest[m] == bindings[m + 1]);
                }
            } else {
                assert(w[i] == wr[i - 1]);
                assert(w[j] == wr[j - 1]);
            }
        }
    }
}

/// Binds `number` to `target` in a list of bindings.
fn bind(bindings: &mut Vec<(u8, MidiTarget)>, number: u8, target: MidiTarget)
    ensures
        final(bindings)@ == bindings_with(old(bindings)@, number, target),
{
    let mut i: usize = 0;
    assert(bindings@.skip(0) == bindings@);
    while i < bindings.len()
        invariant
            i <= bindings@.len(),
            bindings@ == old(bindings)@,
            forall|k: int| 0 <= k < i ==> bindings@[k].0 != number,
            bindings_with(bindings@, number, target) == bindings@.take(i as int) + bindings_with(
                bindings@.skip(i as int),
                number,
                target,
            ),
        decreases bindings@.len() - i,
    {
        if bindings[i].0 == number {
            proof {
                let rest = bindings@.skip(i as int);
                assert(rest[0].0 == number);
                assert(bindings_with(rest, number, target) == rest.update(0, (number, target)));
            }
            bindings.set(i, (number, target));
            assert(bindings@ =~= old(bindings)@.take(i as int) + old(bindings)@.skip(
                i as int,
            ).update(0, (number, target)));
            return;
        }
        proof {
            let rest = bindings@.skip(i as int);
            assert(rest.drop_first() == bindings@.skip(i + 1));
            assert(bindings_with(rest, number, target) == seq![rest[0]] + bindings_with(
                rest.drop_first(),
                number,
                target,
            ));
            assert(bindings@.take(i + 1) == bindings@.take(i as int).push(rest[0]));
            assert(bindings@.take(i as int) + bindings_with(rest, number, target)
                == bindings@.take(i + 1) + bindings_with(bindings@.skip(i + 1), number, target));
        }
        i = i + 1;
    }
    proof {
        assert(bindings@.skip(i as int) == Seq::<(u8, MidiTarget)>::empty());
        assert(bindings@.take(i as int) == bindings@);
    }
    bindings.push((number, target));
}

/// The bindings of a context as a map from number to target.
pub open spec fn bindings_view(bindings: Seq<(u8, MidiTarget)>) -> Map<u8, MidiTarget> {
    Map::new(|n: u8| binding_lookup(bindings, n) is Some, |n: u8| binding_lookup(bindings, n)->0)
}

/// A table as a map from context name to that context's bindings.
pub open spec fn table_view(table: Seq<ContextMap>) -> Map<Seq<char>, Map<u8, MidiTarget>> {
    Map::new(
        |c: Seq<char>| context_bindings(table, c) is Some,
        |c: Seq<char>| bindings_view(context_bindings(table, c)->0),
    )
}

/// The table view after binding `number` to `target` in context `ctx`,
/// creating the context when it is missing.
pub open spec fn view_with(
    view: Map<Seq<char>, Map<u8, MidiTarget>>,
    ctx: Seq<char>,
    number: u8,
    target: MidiTarget,
) -> Map<Seq<char>, Map<u8, MidiTarget>> {
    let old_bindings = if view.contains_key(ctx) { view[ctx] } else { Map::empty() };
    view.insert(ctx, old_bindings.insert(number, target))
}

proof fn lemma_context_bindings_at(table: Seq<ContextMap>, i: int)
    requires
        table_wf(table),
        0 <= i < table.len(),
    ensures
        context_bindings(table, table[i].context@) == Some(table[i].bindings@),
    decreases i,
{
    if i > 0 {
        let rest = table.drop_first();
        assert(table[0].context@ != table[i].context@);
        assert(rest[i - 1] == table[i]);
        lemma_table_wf_rest(table);
        lemma_context_bindings_at(rest, i - 1);
    }
}

proof fn lemma_context_bindings_absent(table: Seq<ContextMap>, c: Seq<char>)
    requires
        forall|k: int| 0 <= k < table.len() ==> #[trigger] table[k].context@ != c,
    ensures
        context_bindings(table, c) is None,
    decreases table.len(),
{
    if table.len() > 0 {
        let rest = table.drop_first();
        assert forall|k: int| 0 <= k < rest.len() implies #[trigger] rest[k].context@ != c by {
            assert(rest[k] == table[k + 1]);
        }
        lemma_context_bindings_absent(rest, c);
    }
}

proof fn lemma_context_bindings_found(table: Seq<ContextMap>, c: Seq<char>)
    requires
        context_bindings(table, c) is Some,
    ensures
        exists|k: int| 0 <= k < table.len() && #[trigger] table[k].context@ == c,
    decreases table.len(),
{
    if table[0].context@ != c {
        let rest = table.drop_first();
        lemma_context_bindings_found(rest, c);
        let k = choose|k: int| 0 <= k < rest.len() && #[trigger] rest[k].context@ == c;
        assert(table[k + 1] == rest[k]);
    }
}

proof fn lemma_table_wf_rest(table: Seq<ContextMap>)
    requires
        table_wf(table),
        table.len() > 0,
    ensures
        table_wf(table.drop_first()),
{
    let rest = table.drop_first();
    assert forall|i: int, j: int| 0 <= i < j < rest.len() implies #[trigger] rest[i].context@
        != #[trigger] rest[j].context@ by {
        assert(rest[i] == table[i + 1]);
        assert(rest[j] == table[j + 1]);
    }
    assert forall|i: int| 0 <= i < rest.len() implies bindings_unique(#[trigger] rest[i].bindings@) by {
        assert(rest[i] == table[i + 1]);
    }
}

/// Binds `number` to `target` in context `ctx` of a table.
fn bind_in_table(table: &mut Vec<ContextMap>, ctx: &String, number: u8, target: MidiTarget)
    requires
        table_wf(old(table)@),
    ensures
        table_wf(final(table)@),
        table_view(final(table)@) == view_with(table_view(old(table)@), ctx@, number, target),
{
    let ghost old_view = table_view(table@);
    let mut i: usize = 0;
    while i < table.len()
        invariant
            i <= table@.len(),
            table@ == old(table)@,
            table_wf(table@),
            old_view == table_view(table@),
            forall|k: int| 0 <= k < i ==> #[trigger] table@[k].context@ != ctx@,
        decreases table@.len() - i,
    {
        if table[i].context == *ctx {
            let ghost before = table@;
            proof {
                lemma_context_bindings_at(before, i as int);
            }
            let mut entry = table.remove(i);
            proof {
                assert(entry == before[i as int]);
                assert(bindings_unique(before[i as int].bindings@));
                lemma_bindings_with_unique(entry.bindings@, number, target);
            }
            bind(&mut entry.bindings, number, target);
            table.insert(i, entry);
            proof {
                let after = table@;
                assert(after == before.update(i as int, after[i as int]));
                assert forall|a: int, b: int| 0 <= a < b < after.len() implies #[trigger] after[a].context@
                    != #[trigger] after[b].context@ by {
                    assert(after[a].context@ == before[a].context@);
                    assert(after[b].context@ == before[b].context@);
                }
                assert forall|a: int| 0 <= a < after.len() implies bindings_unique(
                    #[trigger] after[a].bindings@,
                ) by {
                    if a != i {
                        assert(after[a] == before[a]);
                    }
                }
                lemma_context_bindings_at(after, i as int);
                let new_view = table_view(after);
                let expect = view_with(old_view, ctx@, number, target);
                assert forall|c: Seq<char>| #[trigger] new_view.contains_key(c) == expect.contains_key(c) by {
                    if c != ctx@ {
                        if context_bindings(before, c) is Some {
                            lemma_context_bindings_found(before, c);
                            let k = choose|k: int| 0 <= k < before.len() && #[trigger] before[k].context@ == c;
                            assert(after[k] == before[k]);
                            lemma_context_bindings_at(after, k);
                        } else {
                            if context_bindings(after, c) is Some {
                                lemma_context_bindings_found(after, c);
                                let k = choose|k: int| 0 <= k < after.len() && #[trigger] after[k].context@ == c;
                                assert(after[k] == before[k]);
                                lemma_context_bindings_at(before, k);
                            }
                        }
                    }
                }
                assert forall|c: Seq<char>| #[trigger] new_view.contains_key(c) implies new_view[c]
                    == expect[c] by {
                    if c == ctx@ {
                        assert forall|n: u8| #[trigger] new_view[c].contains_key(n) == expect[c].contains_key(n)
                            && (new_view[c].contains_key(n) ==> new_view[c][n] == expect[c][n]) by {
                            lemma_binding_lookup_with(before[i as int].bindings@, number, target, n);
                        }
                        assert(new_view[c] =~= expect[c]);
                    } else {
                        lemma_context_bindings_found(after, c);
                        let k = choose|k: int| 0 <= k < after.len() && #[trigger] after[k].context@ == c;
                        assert(after[k] == before[k]);
                        lemma_context_bindings_at(before, k);
                        lemma_context_bindings_at(after, k);
                    }
                }
                assert(new_view =~= expect);
            }
            return;
        }
        i = i + 1;
    }
    proof {
        lemma_context_bindings_absent(table@, ctx@);
    }
    let ghost before = table@;
    let entry = ContextMap { context: ctx.clone(), bindings: vec![(number, target)] };
    table.push(entry);
    proof {
        let after = table@;
        assert forall|a: int, b: int| 0 <= a < b < after.len() implies #[trigger] after[a].context@
            != #[trigger] after[b].context@ by {
            if b == before.len() {
                assert(after[a] == before[a]);
            } else {
                assert(after[a] == before[a]);
                assert(after[b] == before[b]);
            }
        }
        assert forall|a: int| 0 <= a < after.len() implies bindings_unique(#[trigger] after[a].bindings@) by {
            if a < before.len() {
                assert(after[a] == before[a]);
            }
        }
        lemma_context_bindings_at(after, before.len() as int);
        let new_view = table_view(after);
        let expect = view_with(old_view, ctx@, number, target);
        assert forall|c: Seq<char>| #[trigger] new_view.contains_key(c) == expect.contains_key(c)
            && (new_view.contains_key(c) ==> new_view[c] == expect[c]) by {
            if c == ctx@ {
                assert(!old_view.contains_key(c));
                assert forall|n: u8| #[trigger] new_view[c].contains_key(n) == expect[c].contains_key(n)
                    && (new_view[c].contains_key(n) ==> new_view[c][n] == expect[c][n]) by {
                    reveal_with_fuel(binding_lookup, 2);
                }
                assert(new_view[c] =~= expect[c]);
            } else {
                if context_bindings(before, c) is Some {
                    lemma_context_bindings_found(before, c);
                    let k = choose|k: int| 0 <= k < before.len() && #[trigger] before[k].context@ == c;
                    assert(after[k] == before[k]);
                    lemma_context_bindings_at(before, k);
                    lemma_context_bindings_at(after, k);
                } else if context_bindings(after, c) is Some {
                    lemma_context_bindings_found(after, c);
                    let k = choose|k: int| 0 <= k < after.len() && #[trigger] after[k].context@ == c;
                    assert(after[k] == before[k]);
                    lemma_context_bindings_at(before, k);
                }
            }
        }
        assert(new_view =~= expect);
    }
}

/// The target bound to `number` in context `ctx` of a table view.
pub open spec fn view_lookup(view: Map<Seq<char>, Map<u8, MidiTarget>>, ctx: Seq<char>, number: u8) -> Option<
    MidiTarget,
> {
    if view.contains_key(ctx) && view[ctx].contains_key(number) {
        Some(view[ctx][number])
    } else {
        None
    }
}

/// The looper's factory CC bindings: CC 1-5 record parts A-E, CC 6-10 toggle
/// them loop-station style, CC 11-15 select them.
pub open spec fn default_looper_target(number: u8) -> MidiTarget {
    if number <= 5 {
        MidiTarget::LooperRecord((number - 1) as usize)
    } else if number <= 10 {
        MidiTarget::LooperToggle((number - 6) as usize)
    } else {
        MidiTarget::LooperSelect((number - 11) as usize)
    }
}

/// The looper context's factory bindings as a map.
pub open spec fn default_looper_bindings() -> Map<u8, MidiTarget> {
    Map::new(|n: u8| 1 <= n <= 15, |n: u8| default_looper_target(n))
}

proof fn lemma_lookup_at(bindings: Seq<(u8, MidiTarget)>, k: int)
    requires
        bindings_unique(bindings),
        0 <= k < bindings.len(),
    ensures
        binding_lookup(bindings, bindings[k].0) == Some(bindings[k].1),
    decreases k,
{
    if k > 0 {
        let rest = bindings.drop_first();
        assert(bindings[0].0 != bindings[k].0);
        assert(rest[k - 1] == bindings[k]);
        assert forall|i: int, j: int| 0 <= i < j < rest.len() implies #[trigger] rest[i].0
            != #[trigger] rest[j].0 by {
            assert(rest[i] == bindings[i + 1]);
            assert(rest[j] == bindings[j + 1]);
        }
        lemma_lookup_at(rest, k - 1);
    }
}

proof fn lemma_lookup_missing(bindings: Seq<(u8, MidiTarget)>, n: u8)
    requires
        forall|k: int| 0 <= k < bindings.len() ==> #[trigger] bindings[k].0 != n,
    ensures
        binding_lookup(bindings, n) is None,
    decreases bindings.len(),
{
    if bindings.len() > 0 {
        let rest = bindings.drop_first();
        assert forall|k: int| 0 <= k < rest.len() implies #[trigger] rest[k].0 != n by {
            assert(rest[k] == bindings[k + 1]);
        }
        lemma_lookup_missing(rest, n);
    }
}

/// Finds the bindings of a context in a table.
fn find_context(table: &Vec<ContextMap>, ctx: &String) -> (r: Option<usize>)
    ensures
        match r {
            Some(i) => i < table@.len() && context_bindings(table@, ctx@) == Some(
                table@[i as int].bindings@,
            ),
            None => context_bindings(table@, ctx@) is None,
        },
{
    let mut i: usize = 0;
    assert(table@.skip(0) == table@);
    while i < table.len()
        invariant
            i <= table@.len(),
            context_bindings(table@, ctx@) == context_bindings(table@.skip(i as int), ctx@),
        decreases table@.len() - i,
    {
        let ghost rest = table@.skip(i as int);
        assert(rest[0] == table@[i as int]);
        if table[i].context == *ctx {
            return Some(i);
        }
        assert(rest.drop_first() == table@.skip(i + 1));
        i = i + 1;
    }
    assert(table@.skip(i as int).len() == 0);
    None
}

/// Finds the target bound to a number in a list of bindings.
fn find_binding(bindings: &Vec<(u8, MidiTarget)>, number: u8) -> (r: Option<MidiTarget>)
    ensures
        r == binding_lookup(bindings@, number),
{
    let mut i: usize = 0;
    assert(bindings@.skip(0) == bindings@);
    while i < bindings.len()
        invariant
            i <= bindings@.len(),
            binding_lookup(bindings@, number) == binding_lookup(bindings@.skip(i as int), number),
        decreases bindings@.len() - i,
    {
        let ghost rest = bindings@.skip(i as int);
        assert(rest[0] == bindings@[i as int]);
        if bindings[i].0 == number {
            return Some(bindings[i].1);
        }
        assert(rest.drop_first() == bindings@.skip(i + 1));
        i = i + 1;
    }
    assert(bindings@.skip(i as int).len() == 0);
    None
}

/// Finds the target bound to `number` in context `ctx` of a table.
fn lookup_in_table(table: &Vec<ContextMap>, ctx: &String, number: u8) -> (r: Option<MidiTarget>)
    ensures
        r == view_lookup(table_view(table@), ctx@, number),
{
    match find_context(table, ctx) {
        Some(i) => find_binding(&table[i].bindings, number),
        None => None,
    }
}

impl MidiMap {
    /// Whether no context appears twice in a table and no context binds a
    /// number twice.
    pub open spec fn wf(&self) -> bool {
        table_wf(self.cc_maps@) && table_wf(self.note_maps@)
    }

    /// The CC bindings, per context.
    pub open spec fn cc_view(&self) -> Map<Seq<char>, Map<u8, MidiTarget>> {
        table_view(self.cc_maps@)
    }

    /// The note bindings, per context.
    pub open spec fn note_view(&self) -> Map<Seq<char>, Map<u8, MidiTarget>> {
        table_view(self.note_maps@)
    }

    /// The target that a message with this status and first data byte drives in
    /// the active context: CC messages (0xB0) are read in the CC table, note
    /// on and off (0x90, 0x80) in the note table, anything else drives nothing.
    pub open spec fn target_for(&self, status: u8, data1: u8) -> Option<MidiTarget> {
        if status == 0xB0 {
            view_lookup(self.cc_view(), self.active_context@, data1)
        } else if status == 0x90 || status == 0x80 {
            view_lookup(self.note_view(), self.active_context@, data1)
        } else {
            None
        }
    }

    /// The factory mapping: the synth context has no CC bindings, the looper
    /// context has its factory CC bindings, there are no note bindings, and
    /// messages are read in the synth context.
    pub fn new() -> (r: MidiMap)
        ensures
            r.wf(),
            r.active_context@ == "synth"@,
            r.cc_view() == Map::<Seq<char>, Map<u8, MidiTarget>>::empty().insert(
                "synth"@,
                Map::empty(),
            ).insert("looper"@, default_looper_bindings()),
            r.note_view() == Map::<Seq<char>, Map<u8, MidiTarget>>::empty(),
    {
        let mut looper_cc: Vec<(u8, MidiTarget)> = Vec::new();
        let mut n: u8 = 1;
        while n <= 15
            invariant
                1 <= n <= 16,
                looper_cc@.len() == n - 1,
                forall|k: int|
                    0 <= k < looper_cc@.len() ==> #[trigger] looper_cc@[k] == ((k + 1) as u8, default_looper_target((k + 1) as u8)),
            decreases 16 - n,
        {
            let target = if n <= 5 {
                MidiTarget::LooperRecord((n - 1) as usize)
            } else if n <= 10 {
                MidiTarget::LooperToggle((n - 6) as usize)
            } else {
                MidiTarget::LooperSelect((n - 11) as usize)
            };
            looper_cc.push((n, target));
            n = n + 1;
        }
        let synth = ContextMap { context: owned("synth"), bindings: Vec::new() };
        let looper = ContextMap { context: owned("looper"), bindings: looper_cc };
        let cc_maps = vec![synth, looper];
        let note_maps: Vec<ContextMap> = Vec::new();
        let r = MidiMap { cc_maps, note_maps, active_context: owned("synth") };
        proof {
            reveal_strlit("synth");
            reveal_strlit("looper");
            let t = r.cc_maps@;
            let lb = t[1].bindings@;
            assert(lb.len() == 15);
            assert(bindings_unique(lb));
            assert(bindings_unique(t[0].bindings@));
            assert("synth"@.len() != "looper"@.len());
            assert(t[0].context@ != t[1].context@);
            assert(table_wf(t));
            lemma_context_bindings_at(t, 0);
            lemma_context_bindings_at(t, 1);
            assert(table_view(t).dom() =~= set!["synth"@, "looper"@]) by {
                assert forall|c: Seq<char>| table_view(t).contains_key(c) implies c == "synth"@ || c
                    == "looper"@ by {
                    lemma_context_bindings_found(t, c);
                }
            }
            assert(bindings_view(t[0].bindings@) =~= Map::<u8, MidiTarget>::empty());
            assert forall|m: u8| #[trigger] bindings_view(lb).contains_key(m) == default_looper_bindings().contains_key(m)
                && (bindings_view(lb).contains_key(m) ==> bindings_view(lb)[m] == default_looper_bindings()[m]) by {
                if 1 <= m <= 15 {
                    lemma_lookup_at(lb, (m - 1) as int);
                } else {
                    lemma_lookup_missing(lb, m);
                }
            }
            assert(bindings_view(lb) =~= default_looper_bindings());
            assert(table_view(t) =~= Map::<Seq<char>, Map<u8, MidiTarget>>::empty().insert(
                "synth"@,
                Map::empty(),
            ).insert("looper"@, default_looper_bindings()));
            assert(table_view(r.note_maps@) =~= Map::<Seq<char>, Map<u8, MidiTarget>>::empty());
        }
        r
    }

    /// The target that a message drives in the active context.
    pub fn get_target(&self, status: u8, data1: u8) -> (r: Option<MidiTarget>)
        ensures
            r == self.target_for(status, data1),
    {
        if status == 0xB0 {
            return lookup_in_table(&self.cc_maps, &self.active_context, data1);
        }
        if status == 0x90 || status == 0x80 {
            return lookup_in_table(&self.note_maps, &self.active_context, data1);
        }
        None
    }

    /// Binds CC `number` to `target` in context `ctx`, creating the context
    /// when it is missing.
    pub fn assign_cc(&mut self, ctx: &String, number: u8, target: MidiTarget)
        requires
            old(self).wf(),
        ensures
            final(self).wf(),
            final(self).cc_view() == view_with(old(self).cc_view(), ctx@, number, target),
            final(self).note_view() == old(self).note_view(),
            final(self).active_context == old(self).active_context,
    {
        bind_in_table(&mut self.cc_maps, ctx, number, target);
    }

    /// Binds note `number` to `target` in context `ctx`, creating the context
    /// when it is missing.
    pub fn assign_note(&mut self, ctx: &String, number: u8, target: MidiTarget)
        requires
            old(self).wf(),
        ensures
            final(self).wf(),
            final(self).note_view() == view_with(old(self).note_view(), ctx@, number, target),
            final(self).cc_view() == old(self).cc_view(),
            final(self).active_context == old(self).active_context,
    {
        bind_in_table(&mut self.note_maps, ctx, number, target);
    }

    /// MIDI learn: binds the controller or note of an incoming message to
    /// `target` in the active context. A CC message (0xB0) binds in the CC
    /// table, a note-on (0x90) in the note table; other messages bind nothing.
    /// Returns whether a binding was made.
    pub fn learn(&mut self, status: u8, data1: u8, target: MidiTarget) -> (learned: bool)
        requires
            old(self).wf(),
        ensures
            final(self).wf(),
            learned == (status == 0xB0 || status == 0x90),
            final(self).active_context == old(self).active_context,
            final(self).cc_view() == if status == 0xB0 {
                view_with(old(self).cc_view(), old(self).active_context@, data1, target)
            } else {
                old(self).cc_view()
            },
            final(self).note_view() == if status == 0x90 {
                view_with(old(self).note_view(), old(self).active_context@, data1, target)
            } else {
                old(self).note_view()
            },
    {
        let ctx = self.active_context.clone();
        if status == 0xB0 {
            self.assign_cc(&ctx, data1, target);
            true
        } else if status == 0x90 {
            self.assign_note(&ctx, data1, target);
            true
        } else {
            false
        }
    }
}

/// MIDI learn is read back by lookup: once a message's controller or note is
/// learned for a target, a message of the same kind and number resolves to
/// that target in the same context, and every other lookup is unchanged.
pub proof fn lemma_learn_then_resolve(
    before: MidiMap,
    after: MidiMap,
    status: u8,
    data1: u8,
    target: MidiTarget,
    query_status: u8,
    query_data1: u8,
)
    requires
        status == 0xB0 || status == 0x90,
        after.active_context == before.active_context,
        after.cc_view() == if status == 0xB0 {
            view_with(before.cc_view(), before.active_context@, data1, target)
        } else {
            before.cc_view()
        },
        after.note_view() == if status == 0x90 {
            view_with(before.note_view(), before.active_context@, data1, target)
        } else {
            before.note_view()
        },
    ensures
        after.target_for(status, data1) == Some(target),
        query_data1 != data1 ==> after.target_for(query_status, query_data1) == before.target_for(
            query_status,
            query_data1,
        ),
        (status == 0xB0) != (query_status == 0xB0) ==> after.target_for(query_status, query_data1)
            == before.target_for(query_status, query_data1),
{
}

} // verus!
