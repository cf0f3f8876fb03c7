//! What the derived code does when it runs. For a builder, stated over the
//! plans that its code is written from: a builder with one slot per field,
//! the setters as steps on it, and `build`. For `Debug`, the text that is
//! printed for given fields.

use vstd::prelude::*;
use vstd::string::StringExecFns;
use crate::builder::{missing, missing_message, plans_view, FieldPlan, FieldPlanV, Rule};

verus! {

/// What a builder holds for one field.
pub enum Slot<T> {
    /// A required or an optional field: the value, once it was set.
    Single(Option<T>),
    /// A repeated field: the items so far.
    Many(Vec<T>),
}

/// The mathematical value of a `Slot`.
pub enum SlotV<T> {
    Single(Option<T>),
    Many(Seq<T>),
}

impl<T> View for Slot<T> {
    type V = SlotV<T>;

    open spec fn view(&self) -> SlotV<T> {
        match self {
            Slot::Single(value) => SlotV::Single(*value),
            Slot::Many(items) => SlotV::Many(items@),
        }
    }
}

/// What `build` gives for one field.
pub enum Built<T> {
    /// A required field's value.
    Plain(T),
    /// An optional field, set or not.
    Maybe(Option<T>),
    /// A repeated field's items.
    List(Vec<T>),
}

/// The mathematical value of a `Built`.
pub enum BuiltV<T> {
    Plain(T),
    Maybe(Option<T>),
    List(Seq<T>),
}

impl<T> View for Built<T> {
    type V = BuiltV<T>;

    open spec fn view(&self) -> BuiltV<T> {
        match self {
            Built::Plain(value) => BuiltV::Plain(*value),
            Built::Maybe(value) => BuiltV::Maybe(*value),
            Built::List(items) => BuiltV::List(items@),
        }
    }
}

/// The slot of a field in a fresh builder: nothing set, no items.
pub open spec fn fresh_slot<T>(p: FieldPlanV) -> SlotV<T> {
    match p.rule {
        Rule::Repeated => SlotV::Many(Seq::empty()),
        _ => SlotV::Single(None),
    }
}

/// A fresh builder: every field absent.
pub open spec fn fresh<T>(plans: Seq<FieldPlanV>) -> Seq<SlotV<T>> {
    Seq::new(plans.len(), |i: int| fresh_slot(plans[i]))
}

/// Whether a slot is of the kind that a field's rule asks for.
pub open spec fn slot_fits<T>(p: FieldPlanV, slot: SlotV<T>) -> bool {
    (p.rule == Rule::Repeated) == (slot is Many)
}

/// Whether a builder's slots are those of the planned fields.
pub open spec fn fits<T>(plans: Seq<FieldPlanV>, slots: Seq<SlotV<T>>) -> bool {
    &&& slots.len() == plans.len()
    &&& forall|i: int| 0 <= i < plans.len() ==> slot_fits(plans[i], #[trigger] slots[i])
}

/// A call of a setter.
pub enum Call<T> {
    /// The setter of a required or optional field, with a value.
    Store(int, T),
    /// The setter that a repeated field has from `each`, with one item.
    Push(int, T),
    /// The setter under a repeated field's own name, with a whole vector.
    Extend(int, Seq<T>),
}

impl<T> Call<T> {
    /// The field that the call is about.
    pub open spec fn field(self) -> int {
        match self {
            Call::Store(i, _) => i,
            Call::Push(i, _) => i,
            Call::Extend(i, _) => i,
        }
    }
}

/// Whether the builder of the planned fields has the setter that is called.
pub open spec fn offered<T>(plans: Seq<FieldPlanV>, c: Call<T>) -> bool {
    &&& 0 <= c.field() < plans.len()
    &&& match c {
        Call::Store(i, _) => plans[i].rule != Rule::Repeated,
        Call::Push(i, _) => plans[i].rule == Rule::Repeated,
        Call::Extend(i, _) => plans[i].rule == Rule::Repeated && plans[i].whole,
    }
}

/// The items of a slot.
pub open spec fn items<T>(slot: SlotV<T>) -> Seq<T> {
    match slot {
        SlotV::Many(items) => items,
        SlotV::Single(_) => Seq::empty(),
    }
}

/// The builder after a call: a value set replaces what was there, an item
/// pushed comes last, and a vector given extends the items.
pub open spec fn step<T>(slots: Seq<SlotV<T>>, c: Call<T>) -> Seq<SlotV<T>> {
    match c {
        Call::Store(i, value) => slots.update(i, SlotV::Single(Some(value))),
        Call::Push(i, item) => slots.update(i, SlotV::Many(items(slots[i]).push(item))),
        Call::Extend(i, more) => slots.update(i, SlotV::Many(items(slots[i]) + more)),
    }
}

/// The builder after several calls, one after the other.
pub open spec fn run<T>(slots: Seq<SlotV<T>>, calls: Seq<Call<T>>) -> Seq<SlotV<T>>
    decreases calls.len(),
{
    if calls.len() == 0 {
        slots
    } else {
        step(run(slots, calls.drop_last()), calls.last())
    }
}

/// What `build` makes of one slot: a required field that was never set is
/// an error with the field's name, anything else is the field's value.
pub open spec fn built_slot<T>(p: FieldPlanV, slot: SlotV<T>) -> Result<BuiltV<T>, Seq<char>> {
    match p.rule {
        Rule::Required => match slot {
            SlotV::Single(Some(value)) => Ok(BuiltV::Plain(value)),
            _ => Err(missing_message(p.name)),
        },
        Rule::Optional => match slot {
            SlotV::Single(value) => Ok(BuiltV::Maybe(value)),
            _ => Ok(BuiltV::Maybe(None)),
        },
        Rule::Repeated => Ok(BuiltV::List(items(slot))),
    }
}

/// What `build` gives: the values of all fields in order, or the error of
/// the first required field that was never set.
pub open spec fn built<T>(plans: Seq<FieldPlanV>, slots: Seq<SlotV<T>>) -> Result<
    Seq<BuiltV<T>>,
    Seq<char>,
>
    decreases plans.len(),
{
    if plans.len() == 0 || slots.len() != plans.len() {
        Ok(Seq::empty())
    } else {
        match built(plans.drop_last(), slots.drop_last()) {
            Err(message) => Err(message),
            Ok(values) => match built_slot(plans.last(), slots.last()) {
                Err(message) => Err(message),
                Ok(value) => Ok(values.push(value)),
            },
        }
    }
}

/// What one call makes of one slot.
pub open spec fn slot_step<T>(slot: SlotV<T>, c: Call<T>) -> SlotV<T> {
    match c {
        Call::Store(_, value) => SlotV::Single(Some(value)),
        Call::Push(_, item) => SlotV::Many(items(slot).push(item)),
        Call::Extend(_, more) => SlotV::Many(items(slot) + more),
    }
}

/// What the calls about one field make of its slot.
pub open spec fn slot_run<T>(slot: SlotV<T>, calls: Seq<Call<T>>, field: int) -> SlotV<T>
    decreases calls.len(),
{
    if calls.len() == 0 {
        slot
    } else if calls.last().field() == field {
        slot_step(slot_run(slot, calls.drop_last(), field), calls.last())
    } else {
        slot_run(slot, calls.drop_last(), field)
    }
}

/// Whether the builder of the planned fields has every setter that is
/// called.
pub open spec fn all_offered<T>(plans: Seq<FieldPlanV>, calls: Seq<Call<T>>) -> bool {
    forall|i: int| 0 <= i < calls.len() ==> offered(plans, #[trigger] calls[i])
}

/// Whether one of the calls is about the field.
pub open spec fn mentioned<T>(calls: Seq<Call<T>>, field: int) -> bool {
    exists|i: int| 0 <= i < calls.len() && (#[trigger] calls[i]).field() == field
}

/// The items that the calls push to a field, in the order of the calls.
pub open spec fn pushed<T>(calls: Seq<Call<T>>, field: int) -> Seq<T>
    decreases calls.len(),
{
    if calls.len() == 0 {
        Seq::empty()
    } else {
        match calls.last() {
            Call::Push(i, item) if i == field => pushed(calls.drop_last(), field).push(item),
            _ => pushed(calls.drop_last(), field),
        }
    }
}

/// Calls leave the number of slots as it is, keep every slot of the kind
/// its field asks for, and make of each slot what the calls about its
/// field make of it.
pub proof fn lemma_run_by_slot<T>(plans: Seq<FieldPlanV>, slots: Seq<SlotV<T>>, calls: Seq<Call<T>>)
    requires
        fits(plans, slots),
        all_offered(plans, calls),
    ensures
        fits(plans, run(slots, calls)),
        forall|j: int|
            0 <= j < slots.len() ==> #[trigger] run(slots, calls)[j] == slot_run(
                slots[j],
                calls,
                j,
            ),
    decreases calls.len(),
{
    if calls.len() > 0 {
        let before = calls.drop_last();
        assert forall|i: int| 0 <= i < before.len() implies offered(plans, #[trigger] before[i]) by {
            assert(before[i] == calls[i]);
        }
        lemma_run_by_slot(plans, slots, before);
        let c = calls.last();
        assert(offered(plans, c));
        let mid = run(slots, before);
        let end = run(slots, calls);
        assert(end == step(mid, c));
        assert forall|j: int| 0 <= j < slots.len() implies #[trigger] end[j] == slot_run(
            slots[j],
            calls,
            j,
        ) by {
            assert(mid[j] == slot_run(slots[j], before, j));
        }
        assert forall|i: int| 0 <= i < plans.len() implies slot_fits(plans[i], #[trigger] end[i]) by {
            assert(slot_fits(plans[i], mid[i]));
        }
    }
}

/// Calls that are about other fields leave a slot as it was.
pub proof fn lemma_untouched<T>(slot: SlotV<T>, calls: Seq<Call<T>>, field: int)
    requires
        !mentioned(calls, field),
    ensures
        slot_run(slot, calls, field) == slot,
    decreases calls.len(),
{
    if calls.len() > 0 {
        let before = calls.drop_last();
        assert(calls[calls.len() - 1].field() != field);
        assert forall|i: int| 0 <= i < before.len() implies (#[trigger] before[i]).field()
            != field by {
            assert(before[i] == calls[i]);
        }
        lemma_untouched(slot, before, field);
    }
}

/// The values of all fields come out where every slot gives one.
pub proof fn lemma_built_all<T>(plans: Seq<FieldPlanV>, slots: Seq<SlotV<T>>)
    requires
        slots.len() == plans.len(),
        forall|j: int| 0 <= j < plans.len() ==> (#[trigger] built_slot(plans[j], slots[j])) is Ok,
    ensures
        built(plans, slots) == Ok::<Seq<BuiltV<T>>, Seq<char>>(
            Seq::new(plans.len(), |j: int| built_slot(plans[j], slots[j])->Ok_0),
        ),
    decreases plans.len(),
{
    if plans.len() > 0 {
        let n = plans.len() - 1;
        assert forall|j: int| 0 <= j < n implies (#[trigger] built_slot(
            plans.drop_last()[j],
            slots.drop_last()[j],
        )) is Ok by {
            assert(built_slot(plans[j], slots[j]) is Ok);
        }
        lemma_built_all(plans.drop_last(), slots.drop_last());
        assert(built_slot(plans[n], slots[n]) is Ok);
        assert(Seq::new(
            plans.drop_last().len(),
            |j: int| built_slot(plans.drop_last()[j], slots.drop_last()[j])->Ok_0,
        ).push(built_slot(plans.last(), slots.last())->Ok_0) =~= Seq::new(
            plans.len(),
            |j: int| built_slot(plans[j], slots[j])->Ok_0,
        ));
    } else {
        assert(Seq::<BuiltV<T>>::empty() =~= Seq::new(
            plans.len(),
            |j: int| built_slot(plans[j], slots[j])->Ok_0,
        ));
    }
}

/// The error of the first slot that gives one comes out.
pub proof fn lemma_built_first_error<T>(plans: Seq<FieldPlanV>, slots: Seq<SlotV<T>>, k: int)
    requires
        slots.len() == plans.len(),
        0 <= k < plans.len(),
        built_slot(plans[k], slots[k]) is Err,
        forall|j: int| 0 <= j < k ==> (#[trigger] built_slot(plans[j], slots[j])) is Ok,
    ensures
        built(plans, slots) == Err::<Seq<BuiltV<T>>, Seq<char>>(
            built_slot(plans[k], slots[k])->Err_0,
        ),
    decreases plans.len(),
{
    let n = plans.len() - 1;
    if k < n {
        assert(built_slot(plans.drop_last()[k], slots.drop_last()[k]) is Err);
        assert forall|j: int| 0 <= j < k implies (#[trigger] built_slot(
            plans.drop_last()[j],
            slots.drop_last()[j],
        )) is Ok by {
            assert(built_slot(plans[j], slots[j]) is Ok);
        }
        lemma_built_first_error(plans.drop_last(), slots.drop_last(), k);
    } else {
        assert forall|j: int| 0 <= j < n implies (#[trigger] built_slot(
            plans.drop_last()[j],
            slots.drop_last()[j],
        )) is Ok by {
            assert(built_slot(plans[j], slots[j]) is Ok);
        }
        lemma_built_all(plans.drop_last(), slots.drop_last());
    }
}

/// A single call about a field makes of the field's slot what that call
/// makes of it.
pub proof fn lemma_single_call<T>(slot: SlotV<T>, calls: Seq<Call<T>>, at: int, field: int)
    requires
        0 <= at < calls.len(),
        calls[at].field() == field,
        forall|i: int| 0 <= i < calls.len() && i != at ==> (#[trigger] calls[i]).field() != field,
    ensures
        slot_run(slot, calls, field) == slot_step(slot, calls[at]),
    decreases calls.len(),
{
    let before = calls.drop_last();
    if at == calls.len() - 1 {
        assert forall|i: int| 0 <= i < before.len() implies (#[trigger] before[i]).field()
            != field by {
            assert(before[i] == calls[i]);
        }
        lemma_untouched(slot, before, field);
    } else {
        assert(calls[calls.len() - 1].field() != field);
        assert(before[at] == calls[at]);
        assert forall|i: int| 0 <= i < before.len() && i != at implies (
        #[trigger] before[i]).field() != field by {
            assert(before[i] == calls[i]);
        }
        lemma_single_call(slot, before, at, field);
    }
}

/// A field that was set holds a value.
pub proof fn lemma_set_stays<T>(slot: SlotV<T>, calls: Seq<Call<T>>, field: int)
    requires
        mentioned(calls, field),
        forall|i: int|
            0 <= i < calls.len() && (#[trigger] calls[i]).field() == field ==> calls[i] is Store,
    ensures
        slot_run(slot, calls, field) matches SlotV::Single(Some(_)),
    decreases calls.len(),
{
    let before = calls.drop_last();
    let last = calls[calls.len() - 1];
    if last.field() != field {
        let i = choose|i: int| 0 <= i < calls.len() && (#[trigger] calls[i]).field() == field;
        assert(before[i] == calls[i]);
        assert forall|i: int| 0 <= i < before.len() && (#[trigger] before[i]).field()
            == field implies before[i] is Store by {
            assert(before[i] == calls[i]);
        }
        lemma_set_stays(slot, before, field);
    }
}

/// What `build` gives a field for the one call that was made about it.
pub open spec fn given<T>(p: FieldPlanV, c: Call<T>) -> BuiltV<T> {
    match c {
        Call::Store(_, value) => if p.rule == Rule::Required {
            BuiltV::Plain(value)
        } else {
            BuiltV::Maybe(Some(value))
        },
        Call::Push(_, item) => BuiltV::List(seq![item]),
        Call::Extend(_, more) => BuiltV::List(more),
    }
}

/// Where a setter of every field is called once, in the order of the
/// fields, `build` succeeds and gives every field what its setter was
/// given.
pub proof fn law_every_field_set<T>(plans: Seq<FieldPlanV>, calls: Seq<Call<T>>)
    requires
        calls.len() == plans.len(),
        all_offered(plans, calls),
        forall|i: int| 0 <= i < calls.len() ==> (#[trigger] calls[i]).field() == i,
    ensures
        built(plans, run(fresh(plans), calls)) == Ok::<Seq<BuiltV<T>>, Seq<char>>(
            Seq::new(plans.len(), |i: int| given(plans[i], calls[i])),
        ),
{
    let start = fresh::<T>(plans);
    let end = run(start, calls);
    lemma_run_by_slot(plans, start, calls);
    assert forall|j: int| 0 <= j < plans.len() implies (#[trigger] built_slot(plans[j], end[j]))
        == Ok::<BuiltV<T>, Seq<char>>(given(plans[j], calls[j])) by {
        assert(end[j] == slot_run(start[j], calls, j));
        lemma_single_call(start[j], calls, j, j);
        assert(offered(plans, calls[j]));
        assert(items(start[j]) =~= Seq::<T>::empty());
        assert(Seq::<T>::empty().push(calls[j]->Push_1) =~= seq![calls[j]->Push_1]);
        assert(Seq::<T>::empty() + calls[j]->Extend_1 =~= calls[j]->Extend_1);
    }
    lemma_built_all(plans, end);
    assert(Seq::new(plans.len(), |j: int| built_slot(plans[j], end[j])->Ok_0) =~= Seq::new(
        plans.len(),
        |i: int| given(plans[i], calls[i]),
    ));
}

/// Where no setter of a required field is called, and the required fields
/// before it are all set, `build` fails with the message that names the
/// field.
pub proof fn law_missing_required<T>(plans: Seq<FieldPlanV>, calls: Seq<Call<T>>, k: int)
    requires
        all_offered(plans, calls),
        0 <= k < plans.len(),
        plans[k].rule == Rule::Required,
        !mentioned(calls, k),
        forall|j: int|
            0 <= j < k && (#[trigger] plans[j]).rule == Rule::Required ==> mentioned(calls, j),
    ensures
        built(plans, run(fresh(plans), calls)) == Err::<Seq<BuiltV<T>>, Seq<char>>(
            missing_message(plans[k].name),
        ),
{
    let start = fresh::<T>(plans);
    let end = run(start, calls);
    lemma_run_by_slot(plans, start, calls);
    assert(end[k] == slot_run(start[k], calls, k));
    lemma_untouched(start[k], calls, k);
    assert forall|j: int| 0 <= j < k implies (#[trigger] built_slot(plans[j], end[j])) is Ok by {
        assert(end[j] == slot_run(start[j], calls, j));
        if plans[j].rule == Rule::Required {
            assert forall|i: int| 0 <= i < calls.len() && (#[trigger] calls[i]).field()
                == j implies calls[i] is Store by {
                assert(offered(plans, calls[i]));
            }
            lemma_set_stays(start[j], calls, j);
        }
    }
    lemma_built_first_error(plans, end, k);
}

/// Where every required field is set and no setter of an optional field is
/// called, `build` succeeds and that field is absent.
pub proof fn law_optional_omitted<T>(plans: Seq<FieldPlanV>, calls: Seq<Call<T>>, k: int)
    requires
        all_offered(plans, calls),
        0 <= k < plans.len(),
        plans[k].rule == Rule::Optional,
        !mentioned(calls, k),
        forall|j: int|
            0 <= j < plans.len() && (#[trigger] plans[j]).rule == Rule::Required ==> mentioned(
                calls,
                j,
            ),
    ensures
        built(plans, run(fresh(plans), calls)) matches Ok(values) && values.len() == plans.len()
            && values[k] == BuiltV::<T>::Maybe(None),
{
    let start = fresh::<T>(plans);
    let end = run(start, calls);
    lemma_run_by_slot(plans, start, calls);
    assert(end[k] == slot_run(start[k], calls, k));
    lemma_untouched(start[k], calls, k);
    assert forall|j: int| 0 <= j < plans.len() implies (#[trigger] built_slot(plans[j], end[j]))
        is Ok by {
        assert(end[j] == slot_run(start[j], calls, j));
        if plans[j].rule == Rule::Required {
            assert forall|i: int| 0 <= i < calls.len() && (#[trigger] calls[i]).field()
                == j implies calls[i] is Store by {
                assert(offered(plans, calls[i]));
            }
            lemma_set_stays(start[j], calls, j);
        }
    }
    lemma_built_all(plans, end);
}

/// What pushes alone make of a slot: the items pushed, in the order of the
/// calls, after those it held.
pub proof fn lemma_pushes<T>(slot: SlotV<T>, calls: Seq<Call<T>>, field: int)
    requires
        slot is Many,
        forall|i: int|
            0 <= i < calls.len() && (#[trigger] calls[i]).field() == field ==> calls[i] is Push,
    ensures
        slot_run(slot, calls, field) == SlotV::Many(items(slot) + pushed(calls, field)),
    decreases calls.len(),
{
    if calls.len() > 0 {
        let before = calls.drop_last();
        let last = calls[calls.len() - 1];
        assert forall|i: int| 0 <= i < before.len() && (#[trigger] before[i]).field()
            == field implies before[i] is Push by {
            assert(before[i] == calls[i]);
        }
        lemma_pushes(slot, before, field);
        if last.field() == field {
            assert(last is Push);
            assert((items(slot) + pushed(before, field)).push(last->Push_1) =~= items(slot)
                + pushed(calls, field));
        }
    } else {
        assert(items(slot) + pushed(calls, field) =~= items(slot));
    }
}

/// A repeated field that is filled by pushes alone comes out of `build`
/// with the items pushed, in the order of the calls; with no call it comes
/// out empty, and never as an error.
pub proof fn law_each_in_call_order<T>(plans: Seq<FieldPlanV>, calls: Seq<Call<T>>, k: int)
    requires
        all_offered(plans, calls),
        0 <= k < plans.len(),
        plans[k].rule == Rule::Repeated,
        forall|i: int|
            0 <= i < calls.len() && (#[trigger] calls[i]).field() == k ==> calls[i] is Push,
    ensures
        built_slot(plans[k], run(fresh(plans), calls)[k]) == Ok::<BuiltV<T>, Seq<char>>(
            BuiltV::List(pushed(calls, k)),
        ),
        calls.len() == 0 ==> pushed(calls, k) == Seq::<T>::empty(),
{
    let start = fresh::<T>(plans);
    lemma_run_by_slot(plans, start, calls);
    assert(run(start, calls)[k] == slot_run(start[k], calls, k));
    lemma_pushes(start[k], calls, k);
    assert(Seq::<T>::empty() + pushed(calls, k) =~= pushed(calls, k));
}

/// Pushing the items of a sequence one by one pushes that sequence.
pub proof fn law_pushed_is_what_was_pushed<T>(field: int, pushes: Seq<T>)
    ensures
        pushed(Seq::new(pushes.len(), |i: int| Call::Push(field, pushes[i])), field) == pushes,
    decreases pushes.len(),
{
    let calls = Seq::new(pushes.len(), |i: int| Call::Push(field, pushes[i]));
    if pushes.len() > 0 {
        let fewer = pushes.drop_last();
        law_pushed_is_what_was_pushed(field, fewer);
        assert(calls.drop_last() =~= Seq::new(fewer.len(), |i: int| Call::Push(field, fewer[i])));
        assert(pushed(calls, field) =~= pushes);
    } else {
        assert(pushed(calls, field) =~= pushes);
    }
}

/// The values of several slots, in order.
pub open spec fn slots_view<T>(slots: Seq<Slot<T>>) -> Seq<SlotV<T>> {
    Seq::new(slots.len(), |i: int| slots[i]@)
}

/// The values of what `build` gave, in order.
pub open spec fn builts_view<T>(values: Seq<Built<T>>) -> Seq<BuiltV<T>> {
    Seq::new(values.len(), |i: int| values[i]@)
}

/// A builder as it runs: one slot for each field.
pub struct Builder<T> {
    pub slots: Vec<Slot<T>>,
}

impl<T> View for Builder<T> {
    type V = Seq<SlotV<T>>;

    open spec fn view(&self) -> Seq<SlotV<T>> {
        slots_view(self.slots@)
    }
}

impl<T> Builder<T> {
    /// A fresh builder for the planned fields.
    pub fn new(plans: &Vec<FieldPlan>) -> (r: Self)
        ensures
            r@ == fresh::<T>(plans_view(plans@)),
    {
        let mut slots: Vec<Slot<T>> = Vec::new();
        let mut i: usize = 0;
        while i < plans.len()
            invariant
                i <= plans.len(),
                slots@.len() == i,
                forall|k: int| 0 <= k < i ==> slots@[k]@ == fresh_slot::<T>(plans@[k]@),
            decreases plans.len() - i,
        {
            let slot = match plans[i].rule {
                Rule::Repeated => Slot::Many(Vec::new()),
                _ => Slot::Single(None),
            };
            assert(slot@ == fresh_slot::<T>(plans@[i as int]@));
            slots.push(slot);
            i += 1;
        }
        let r = Builder { slots };
        assert(r@ =~= fresh::<T>(plans_view(plans@)));
        r
    }

    fn replace(&mut self, field: usize, slot: Slot<T>) -> (r: Slot<T>)
        requires
            field < old(self)@.len(),
        ensures
            r@ == old(self)@[field as int],
            final(self)@ == old(self)@.update(field as int, slot@),
    {
        let found = self.slots.remove(field);
        self.slots.insert(field, slot);
        assert(self@ =~= old(self)@.update(field as int, slot@));
        found
    }

    /// Calls the setter of a required or optional field.
    pub fn store(&mut self, field: usize, value: T)
        requires
            field < old(self)@.len(),
        ensures
            final(self)@ == step(old(self)@, Call::Store(field as int, value)),
    {
        let _ = self.replace(field, Slot::Single(Some(value)));
    }

    /// Calls the setter that adds one item to a repeated field.
    pub fn push(&mut self, field: usize, item: T)
        requires
            field < old(self)@.len(),
        ensures
            final(self)@ == step(old(self)@, Call::Push(field as int, item)),
    {
        let found = self.replace(field, Slot::Single(None));
        let mut all = match found {
            Slot::Many(all) => all,
            Slot::Single(_) => Vec::new(),
        };
        all.push(item);
        let _ = self.replace(field, Slot::Many(all));
        assert(self@ =~= step(old(self)@, Call::Push(field as int, item)));
    }

    /// Calls the setter that gives a repeated field a whole vector.
    pub fn extend(&mut self, field: usize, more: Vec<T>)
        requires
            field < old(self)@.len(),
        ensures
            final(self)@ == step(old(self)@, Call::Extend(field as int, more@)),
    {
        let found = self.replace(field, Slot::Single(None));
        let mut all = match found {
            Slot::Many(all) => all,
            Slot::Single(_) => Vec::new(),
        };
        let ghost given = more@;
        let mut rest = more;
        all.append(&mut rest);
        let _ = self.replace(field, Slot::Many(all));
        assert(self@ =~= step(old(self)@, Call::Extend(field as int, given)));
    }

    /// Calls `build`.
    pub fn build(self, plans: &Vec<FieldPlan>) -> (r: Result<Vec<Built<T>>, String>)
        requires
            self@.len() == plans@.len(),
        ensures
            match built(plans_view(plans@), self@) {
                Ok(values) => r matches Ok(v) && builts_view(v@) == values,
                Err(message) => r matches Err(m) && m@ == message,
            },
    {
        let ghost pv = plans_view(plans@);
        let ghost all = self@;
        let mut slots = self.slots;
        let mut out: Vec<Built<T>> = Vec::new();
        let mut i: usize = 0;
        proof {
            assert(pv.take(0) =~= Seq::<FieldPlanV>::empty());
            assert(builts_view(out@) =~= Seq::<BuiltV<T>>::empty());
            assert(slots_view(slots@) =~= all.skip(0));
        }
        while i < plans.len()
            invariant
                i <= plans.len(),
                pv == plans_view(plans@),
                all == self@,
                all.len() == plans@.len(),
                slots_view(slots@) == all.skip(i as int),
                built(pv.take(i as int), all.take(i as int)) == Ok::<Seq<BuiltV<T>>, Seq<char>>(
                    builts_view(out@),
                ),
            decreases plans.len() - i,
        {
            proof {
                assert(slots_view(slots@).len() == all.len() - i);
                assert(slots_view(slots@)[0] == all[i as int]);
                assert(pv.take(i + 1).drop_last() =~= pv.take(i as int));
                assert(all.take(i + 1).drop_last() =~= all.take(i as int));
            }
            let ghost held = slots@;
            let slot = slots.remove(0);
            proof {
                assert(slot@ == slots_view(held)[0]);
                assert forall|k: int| 0 <= k < slots@.len() implies slots_view(slots@)[k]
                    == all.skip(i + 1)[k] by {
                    assert(slots@[k] == held[k + 1]);
                    assert(slots_view(held)[k + 1] == all.skip(i as int)[k + 1]);
                }
                assert(slots_view(slots@) =~= all.skip(i + 1));
                assert(pv.take(i + 1).last() == pv[i as int]);
                assert(all.take(i + 1).last() == all[i as int]);
                assert(pv[i as int] == plans@[i as int]@);
            }
            let value = match plans[i].rule {
                Rule::Required => match slot {
                    Slot::Single(Some(value)) => Built::Plain(value),
                    _ => {
                        proof {
                            assert(built_slot(pv[i as int], all[i as int]) == Err::<
                                BuiltV<T>,
                                Seq<char>,
                            >(missing_message(pv[i as int].name)));
                            lemma_built_error_stays(pv, all, i + 1);
                        }
                        return Err(missing(plans[i].name.as_str()));
                    },
                },
                Rule::Optional => match slot {
                    Slot::Single(value) => Built::Maybe(value),
                    _ => Built::Maybe(None),
                },
                Rule::Repeated => match slot {
                    Slot::Many(all) => Built::List(all),
                    Slot::Single(_) => {
                        let none: Vec<T> = Vec::new();
                        Built::List(none)
                    },
                },
            };
            assert(built_slot(pv[i as int], all[i as int]) == Ok::<BuiltV<T>, Seq<char>>(value@));
            assert(builts_view(out@.push(value)) =~= builts_view(out@).push(value@));
            out.push(value);
            i += 1;
        }
        proof {
            assert(pv.take(plans.len() as int) =~= pv);
            assert(all.take(plans.len() as int) =~= all);
        }
        Ok(out)
    }
}

/// An error among the first fields is the error of all of them.
pub proof fn lemma_built_error_stays<T>(plans: Seq<FieldPlanV>, slots: Seq<SlotV<T>>, n: int)
    requires
        slots.len() == plans.len(),
        0 <= n <= plans.len(),
        built(plans.take(n), slots.take(n)) is Err,
    ensures
        built(plans, slots) == built(plans.take(n), slots.take(n)),
    decreases plans.len() - n,
{
    if n < plans.len() {
        assert(plans.take(n + 1).drop_last() =~= plans.take(n));
        assert(slots.take(n + 1).drop_last() =~= slots.take(n));
        lemma_built_error_stays(plans, slots, n + 1);
    } else {
        assert(plans.take(n) =~= plans);
        assert(slots.take(n) =~= slots);
    }
}

/// The fields as `Debug` prints them: `name: value` for each, with `, `
/// between them.
pub open spec fn listed(fields: Seq<(Seq<char>, Seq<char>)>) -> Seq<char>
    decreases fields.len(),
{
    if fields.len() == 0 {
        Seq::empty()
    } else {
        listed(fields.drop_last()) + if fields.len() == 1 {
            Seq::empty()
        } else {
            ", "@
        } + fields.last().0 + ": "@ + fields.last().1
    }
}

/// What the derived `Debug` prints for a struct, given the name and the
/// printed value of each field: `Name { field: value, .. }`, and the name
/// alone where the struct has no field.
pub open spec fn printed(name: Seq<char>, fields: Seq<(Seq<char>, Seq<char>)>) -> Seq<char> {
    if fields.len() == 0 {
        name
    } else {
        name + " { "@ + listed(fields) + " }"@
    }
}

/// The names and values of fields as sequences of characters.
pub open spec fn pairs_view(fields: Seq<(String, String)>) -> Seq<(Seq<char>, Seq<char>)> {
    Seq::new(fields.len(), |i: int| (fields[i].0@, fields[i].1@))
}

/// Prints a struct as the derived `Debug` does, given the name and the
/// printed value of each field.
pub fn print(name: &str, fields: &Vec<(String, String)>) -> (r: String)
    ensures
        r@ == printed(name@, pairs_view(fields@)),
{
    let ghost all = pairs_view(fields@);
    let mut out = String::from_str(name);
    if fields.len() == 0 {
        return out;
    }
    out.append(" { ");
    let ghost head = out@;
    let mut i: usize = 0;
    proof {
        assert(all.take(0) =~= Seq::<(Seq<char>, Seq<char>)>::empty());
        assert(head + listed(all.take(0)) =~= head);
    }
    while i < fields.len()
        invariant
            i <= fields.len(),
            all == pairs_view(fields@),
            out@ == head + listed(all.take(i as int)),
        decreases fields.len() - i,
    {
        proof {
            assert(all.take(i + 1).drop_last() =~= all.take(i as int));
            assert(all.take(i + 1).last() == all[i as int]);
        }
        if i > 0 {
            out.append(", ");
        }
        out.append(fields[i].0.as_str());
        out.append(": ");
        out.append(fields[i].1.as_str());
        assert(out@ =~= head + listed(all.take(i + 1)));
        i += 1;
    }
    proof {
        assert(all.take(fields.len() as int) =~= all);
    }
    out.append(" }");
    out
}

} // verus!
