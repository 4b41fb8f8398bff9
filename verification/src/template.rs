//! Templates: texts with slots that are filled with values.

use vstd::prelude::*;

use crate::text::{occurs_at, replace, replaced};

verus! {

/// A slot of a template, and what it is filled with.
#[verifier::ext_equal]
pub struct SlotView {
    pub slot: Seq<char>,
    pub value: Seq<char>,
}

/// The slot `name` filled with `value`.
pub open spec fn slot(name: Seq<char>, value: Seq<char>) -> SlotView {
    SlotView { slot: name, value }
}

/// `template` with the slots filled one after the other: a slot that an earlier
/// value brings in is filled too.
pub open spec fn filled(template: Seq<char>, slots: Seq<SlotView>) -> Seq<char>
    decreases slots.len(),
{
    if slots.len() == 0 {
        template
    } else {
        replaced(filled(template, slots.drop_last()), slots.last().slot, slots.last().value)
    }
}

/// A slot and its value.
pub struct Slot<'a> {
    pub slot: &'a str,
    pub value: &'a str,
}

impl<'a> DeepView for Slot<'a> {
    type V = SlotView;

    open spec fn deep_view(&self) -> SlotView {
        SlotView { slot: self.slot@, value: self.value@ }
    }
}

/// Fills the slots of a template, one after the other.
pub fn fill(template: &str, slots: &Vec<Slot>) -> (r: String)
    requires
        forall|i: int| 0 <= i < slots@.len() ==> (#[trigger] slots@[i]).slot@.len() > 0,
    ensures
        r@ == filled(template@, slots.deep_view()),
{
    let mut r = template.to_string();
    let mut i: usize = 0;
    while i < slots.len()
        invariant
            i <= slots.len(),
            forall|i: int| 0 <= i < slots@.len() ==> (#[trigger] slots@[i]).slot@.len() > 0,
            r@ == filled(template@, slots.deep_view().take(i as int)),
        decreases slots.len() - i,
    {
        r = replace(r.as_str(), slots[i].slot, slots[i].value);
        assert(slots.deep_view().take(i + 1).drop_last() =~= slots.deep_view().take(i as int));
        i += 1;
    }
    assert(slots.deep_view().take(i as int) =~= slots.deep_view());
    r
}

/// Whether a slot is a name between braces.
pub open spec fn proper(slot: Seq<char>) -> bool {
    &&& slot.len() >= 2
    &&& slot[0] == '{'
    &&& slot.last() == '}'
    &&& forall|i: int| 0 < i < slot.len() - 1 ==> slot[i] != '{' && slot[i] != '}'
}

/// Whether each slot is a name between braces, no two are the same, and no value
/// holds an opening brace.
pub open spec fn orderly(slots: Seq<SlotView>) -> bool {
    &&& forall|k: int| 0 <= k < slots.len() ==> proper((#[trigger] slots[k]).slot)
    &&& forall|j: int, k: int|
        0 <= j < k < slots.len() ==> (#[trigger] slots[j]).slot != (#[trigger] slots[k]).slot
    &&& forall|k: int| 0 <= k < slots.len() ==> !(#[trigger] slots[k]).value.contains('{')
}

/// Whether the text starts with this slot.
pub open spec fn starts_with_slot(text: Seq<char>, slots: Seq<SlotView>, k: int) -> bool {
    0 <= k < slots.len() && slots[k].slot.len() > 0 && occurs_at(text, slots[k].slot, 0)
}

/// Whether the text starts with a slot.
pub open spec fn begins(text: Seq<char>, slots: Seq<SlotView>) -> bool {
    exists|k: int| starts_with_slot(text, slots, k)
}

/// Whether the text starts with a brace that no slot can follow from.
pub open spec fn stands_alone(text: Seq<char>, slots: Seq<SlotView>) -> bool {
    &&& text.len() > 1
    &&& text[1] != '{'
    &&& forall|k: int| 0 <= k < slots.len() ==> text[1] != (#[trigger] slots[k]).slot[1]
}

/// Whether every opening brace of a template starts a slot, or stands before what no
/// slot goes on with.
pub open spec fn legible(template: Seq<char>, slots: Seq<SlotView>) -> bool {
    forall|i: int|
        0 <= i < template.len() && #[trigger] template[i] == '{' ==> begins(
            template.skip(i),
            slots,
        ) || stands_alone(template.skip(i), slots)
}

/// `template` with each of its own slots exchanged for its value, and all else as it
/// is.
pub open spec fn filled_at_once(template: Seq<char>, slots: Seq<SlotView>) -> Seq<char>
    decreases template.len(),
{
    if template.len() == 0 {
        template
    } else if begins(template, slots) {
        let k = choose|k: int| starts_with_slot(template, slots, k);
        slots[k].value + filled_at_once(template.skip(slots[k].slot.len() as int), slots)
    } else {
        seq![template[0]] + filled_at_once(template.skip(1), slots)
    }
}

/// Law: filling the slots of a template one after the other exchanges each slot that
/// stands in the template for its value, and leaves all else as it is.
pub proof fn law_every_slot_gets_its_value(template: Seq<char>, slots: Seq<SlotView>)
    requires
        orderly(slots),
        legible(template, slots),
    ensures
        filled(template, slots) == filled_at_once(template, slots),
{
    lemma_filled(template, slots, slots.len() as int);
    assert(slots.take(slots.len() as int) =~= slots);
}

proof fn lemma_filled(t: Seq<char>, slots: Seq<SlotView>, n: int)
    requires
        orderly(slots),
        legible(t, slots),
        0 <= n <= slots.len(),
    ensures
        filled(t, slots.take(n)) == filled_at_once(t, slots.take(n)),
    decreases n,
{
    if n == 0 {
        lemma_no_slots(t, slots.take(0));
    } else {
        lemma_filled(t, slots, n - 1);
        lemma_one_more(t, slots, n - 1);
        assert(slots.take(n).drop_last() =~= slots.take(n - 1));
        assert(slots.take(n).last() == slots[n - 1]);
    }
}

/// Without slots a template stays as it is.
proof fn lemma_no_slots(t: Seq<char>, slots: Seq<SlotView>)
    requires
        slots.len() == 0,
    ensures
        filled_at_once(t, slots) == t,
    decreases t.len(),
{
    if t.len() > 0 {
        assert(!begins(t, slots));
        lemma_no_slots(t.skip(1), slots);
        assert(seq![t[0]] + t.skip(1) =~= t);
    }
}

/// A text starts with one slot at most.
pub proof fn lemma_one_slot(t: Seq<char>, p: Seq<char>, q: Seq<char>)
    requires
        proper(p),
        proper(q),
        occurs_at(t, p, 0),
        occurs_at(t, q, 0),
    ensures
        p == q,
{
    assert forall|i: int| 0 <= i < p.len() implies p[i] == t[i] by {
        assert(t.subrange(0, p.len() as int)[i] == t[i]);
    }
    assert forall|i: int| 0 <= i < q.len() implies q[i] == t[i] by {
        assert(t.subrange(0, q.len() as int)[i] == t[i]);
    }
    if p.len() < q.len() {
        assert(q[p.len() - 1] == '}');
    } else if q.len() < p.len() {
        assert(p[q.len() - 1] == '}');
    } else {
        assert(p =~= q);
    }
}

/// What stands before the first brace is not exchanged.
proof fn lemma_replaced_behind(v: Seq<char>, rest: Seq<char>, from: Seq<char>, to: Seq<char>)
    requires
        !v.contains('{'),
        from.len() > 0,
        from[0] == '{',
    ensures
        replaced(v + rest, from, to) == v + replaced(rest, from, to),
    decreases v.len(),
{
    let s = v + rest;
    if v.len() == 0 {
        assert(s =~= rest);
        assert(v + replaced(rest, from, to) =~= replaced(rest, from, to));
    } else if s.len() >= from.len() {
        assert(s[0] == v[0]);
        assert(v.contains(v[0]));
        if occurs_at(s, from, 0) {
            assert(s.subrange(0, from.len() as int)[0] == s[0]);
        }
        let w = v.skip(1);
        assert(!w.contains('{')) by {
            if w.contains('{') {
                let k = choose|k: int| 0 <= k < w.len() && w[k] == '{';
                assert(v[k + 1] == '{');
            }
        }
        lemma_replaced_behind(w, rest, from, to);
        assert(s.skip(1) =~= w + rest);
        assert(seq![s[0]] + (w + replaced(rest, from, to)) =~= v + replaced(rest, from, to));
    }
}

/// What stands before the first brace is not filled.
proof fn lemma_filled_behind(v: Seq<char>, rest: Seq<char>, slots: Seq<SlotView>)
    requires
        !v.contains('{'),
        forall|k: int| 0 <= k < slots.len() ==> proper((#[trigger] slots[k]).slot),
    ensures
        filled_at_once(v + rest, slots) == v + filled_at_once(rest, slots),
    decreases v.len(),
{
    let s = v + rest;
    if v.len() == 0 {
        assert(s =~= rest);
        assert(v + filled_at_once(rest, slots) =~= filled_at_once(rest, slots));
    } else {
        assert(s[0] == v[0]);
        assert(v.contains(v[0]));
        lemma_begins_with_brace(s, slots);
        let w = v.skip(1);
        assert(!w.contains('{')) by {
            if w.contains('{') {
                let k = choose|k: int| 0 <= k < w.len() && w[k] == '{';
                assert(v[k + 1] == '{');
            }
        }
        lemma_filled_behind(w, rest, slots);
        assert(s.skip(1) =~= w + rest);
        assert(seq![s[0]] + (w + filled_at_once(rest, slots)) =~= v + filled_at_once(rest, slots));
    }
}

/// A text that starts with a slot starts with a brace.
pub proof fn lemma_begins_with_brace(t: Seq<char>, slots: Seq<SlotView>)
    requires
        forall|k: int| 0 <= k < slots.len() ==> proper((#[trigger] slots[k]).slot),
    ensures
        begins(t, slots) ==> t.len() > 0 && t[0] == '{',
{
    if begins(t, slots) {
        let k = choose|k: int| starts_with_slot(t, slots, k);
        let p = slots[k].slot;
        assert(proper(p));
        assert(t.subrange(0, p.len() as int)[0] == t[0]);
    }
}

/// A slot that is not among `slots` stays, where a text starts with it.
proof fn lemma_slot_stays(t: Seq<char>, slots: Seq<SlotView>, p: Seq<char>)
    requires
        forall|k: int| 0 <= k < slots.len() ==> proper((#[trigger] slots[k]).slot),
        proper(p),
        occurs_at(t, p, 0),
        !begins(t, slots),
    ensures
        filled_at_once(t, slots) == p + filled_at_once(t.skip(p.len() as int), slots),
{
    let v = p.skip(1);
    let rest = t.skip(p.len() as int);
    assert(p == t.subrange(0, p.len() as int));
    assert(t.skip(1) =~= v + rest);
    assert(!v.contains('{')) by {
        if v.contains('{') {
            let k = choose|k: int| 0 <= k < v.len() && v[k] == '{';
            assert(p[k + 1] == '{');
        }
    }
    lemma_filled_behind(v, rest, slots);
    assert(seq![t[0]] + (v + filled_at_once(rest, slots)) =~= p + filled_at_once(rest, slots));
}

/// What is legible stays so where its start is taken away.
proof fn lemma_legible(t: Seq<char>, slots: Seq<SlotView>, n: int)
    requires
        legible(t, slots),
        0 <= n <= t.len(),
    ensures
        legible(t.skip(n), slots),
{
    let rest = t.skip(n);
    assert forall|i: int| 0 <= i < rest.len() && #[trigger] rest[i] == '{' implies begins(
        rest.skip(i),
        slots,
    ) || stands_alone(rest.skip(i), slots) by {
        assert(t[n + i] == '{');
        assert(rest.skip(i) =~= t.skip(n + i));
    }
}

/// To exchange one more slot in what was filled at once is to fill that slot too.
proof fn lemma_one_more(t: Seq<char>, slots: Seq<SlotView>, n: int)
    requires
        orderly(slots),
        legible(t, slots),
        0 <= n < slots.len(),
    ensures
        replaced(filled_at_once(t, slots.take(n)), slots[n].slot, slots[n].value)
            == filled_at_once(t, slots.take(n + 1)),
    decreases t.len(),
{
    let some = slots.take(n);
    let more = slots.take(n + 1);
    let from = slots[n].slot;
    let to = slots[n].value;
    assert(proper(from));
    assert forall|k: int| 0 <= k < some.len() implies proper((#[trigger] some[k]).slot) by {
        assert(some[k] == slots[k]);
    }
    if t.len() > 0 {
        if begins(t, more) {
            let k = choose|k: int| starts_with_slot(t, more, k);
            assert(more[k] == slots[k]);
            let p = slots[k].slot;
            let value = slots[k].value;
            let rest = t.skip(p.len() as int);
            assert(proper(p));
            lemma_legible(t, slots, p.len() as int);
            lemma_one_more(rest, slots, n);
            if k < n {
                assert(starts_with_slot(t, some, k));
                let j = choose|j: int| starts_with_slot(t, some, j);
                assert(some[j] == slots[j]);
                lemma_one_slot(t, slots[j].slot, p);
                assert(j == k);
                assert(!value.contains('{'));
                lemma_replaced_behind(value, filled_at_once(rest, some), from, to);
            } else {
                assert(!begins(t, some)) by {
                    if begins(t, some) {
                        let j = choose|j: int| starts_with_slot(t, some, j);
                        assert(some[j] == slots[j]);
                        lemma_one_slot(t, slots[j].slot, p);
                    }
                }
                lemma_slot_stays(t, some, p);
                let s = p + filled_at_once(rest, some);
                assert(s.subrange(0, p.len() as int) =~= p);
                assert(s.skip(p.len() as int) =~= filled_at_once(rest, some));
            }
        } else {
            assert(!begins(t, some)) by {
                if begins(t, some) {
                    let j = choose|j: int| starts_with_slot(t, some, j);
                    assert(some[j] == more[j]);
                    assert(starts_with_slot(t, more, j));
                }
            }
            lemma_legible(t, slots, 1);
            lemma_one_more(t.skip(1), slots, n);
            let after = filled_at_once(t.skip(1), some);
            let s = seq![t[0]] + after;
            assert(filled_at_once(t, some) == s);
            assert(s.skip(1) =~= after);
            if t[0] == '{' {
                assert(t.skip(0) =~= t);
                lemma_no_new_slot(t, slots, n);
            } else if s.len() >= from.len() && occurs_at(s, from, 0) {
                assert(s.subrange(0, from.len() as int)[0] == s[0]);
            }
            if s.len() < from.len() {
                assert(replaced(after, from, to) == after);
            }
        }
    }
}

/// A brace of the template that does not start this slot does not come to start it
/// when other slots are filled.
proof fn lemma_no_new_slot(t: Seq<char>, slots: Seq<SlotView>, n: int)
    requires
        orderly(slots),
        t.len() > 0,
        begins(t, slots) || stands_alone(t, slots),
        0 <= n < slots.len(),
        !begins(t, slots.take(n + 1)),
        !begins(t, slots.take(n)),
    ensures
        !occurs_at(filled_at_once(t, slots.take(n)), slots[n].slot, 0),
{
    let some = slots.take(n);
    let from = slots[n].slot;
    let s = filled_at_once(t, some);
    assert(proper(from));
    assert forall|k: int| 0 <= k < some.len() implies proper((#[trigger] some[k]).slot) by {
        assert(some[k] == slots[k]);
    }
    if occurs_at(s, from, 0) {
        if begins(t, slots) {
            let k = choose|k: int| starts_with_slot(t, slots, k);
            let p = slots[k].slot;
            assert(proper(p));
            assert(k > n) by {
                if k <= n {
                    assert(slots.take(n + 1)[k] == slots[k]);
                    assert(starts_with_slot(t, slots.take(n + 1), k));
                }
            }
            lemma_slot_stays(t, some, p);
            assert(s.subrange(0, p.len() as int) =~= p);
            lemma_one_slot(s, p, from);
        } else {
            let rest = t.skip(1);
            lemma_begins_with_brace(rest, some);
            assert(rest[0] == t[1]);
            assert(filled_at_once(rest, some)[0] == t[1]);
            assert(s[1] == t[1]);
            assert(s.subrange(0, from.len() as int)[1] == s[1]);
        }
    }
}

/// Law: slots are filled in their order, each in all that the ones before it have left or
/// brought in.
pub proof fn law_slots_are_filled_in_order(
    template: Seq<char>,
    slots: Seq<SlotView>,
    name: Seq<char>,
    value: Seq<char>,
)
    ensures
        filled(template, seq![]) == template,
        filled(template, slots.push(SlotView { slot: name, value })) == replaced(
            filled(template, slots),
            name,
            value,
        ),
{
    assert(slots.push(SlotView { slot: name, value }).drop_last() =~= slots);
}

} // verus!
