//! Tool calls that arrive in fragments, each fragment naming its call by index.

use vstd::prelude::*;

verus! {

/// A tool call as far as it has arrived.
pub struct ToolCall {
    pub id: String,
    pub name: String,
    pub arguments: String,
}

#[verifier::ext_equal]
pub struct CallView {
    pub id: Seq<char>,
    pub name: Seq<char>,
    pub arguments: Seq<char>,
}

impl View for ToolCall {
    type V = CallView;

    open spec fn view(&self) -> CallView {
        CallView { id: self.id@, name: self.name@, arguments: self.arguments@ }
    }
}

/// The indices rise.
pub open spec fn rising(calls: Seq<(u32, CallView)>) -> bool {
    forall|i: int, j: int|
        0 <= i < j < calls.len() ==> (#[trigger] calls[i]).0 < (#[trigger] calls[j]).0
}

/// The place of the call with that index: the first whose index is no smaller.
pub open spec fn slot(calls: Seq<(u32, CallView)>, index: u32) -> int
    decreases calls.len(),
{
    if calls.len() == 0 || calls[0].0 >= index {
        0
    } else {
        1 + slot(calls.skip(1), index)
    }
}

/// The call with that index.
pub open spec fn call_at(calls: Seq<(u32, CallView)>, index: u32) -> Option<CallView> {
    let at = slot(calls, index);
    if at < calls.len() && calls[at].0 == index {
        Some(calls[at].1)
    } else {
        None
    }
}

/// The calls with the one of that index set.
pub open spec fn with_call(calls: Seq<(u32, CallView)>, index: u32, call: CallView) -> Seq<
    (u32, CallView),
> {
    let at = slot(calls, index);
    if call_at(calls, index) is Some {
        calls.update(at, (index, call))
    } else {
        calls.insert(at, (index, call))
    }
}

pub proof fn lemma_slot(calls: Seq<(u32, CallView)>, index: u32)
    ensures
        0 <= slot(calls, index) <= calls.len(),
        slot(calls, index) < calls.len() ==> calls[slot(calls, index)].0 >= index,
        forall|i: int| 0 <= i < slot(calls, index) ==> (#[trigger] calls[i]).0 < index,
    decreases calls.len(),
{
    if calls.len() > 0 && calls[0].0 < index {
        lemma_slot(calls.skip(1), index);
        assert forall|i: int| 0 <= i < slot(calls, index) implies (#[trigger] calls[i]).0
            < index by {
            if i > 0 {
                assert(calls[i] == calls.skip(1)[i - 1]);
            }
        }
    }
}

proof fn lemma_slot_is(calls: Seq<(u32, CallView)>, index: u32, at: int)
    requires
        0 <= at <= calls.len(),
        at < calls.len() ==> calls[at].0 >= index,
        forall|i: int| 0 <= i < at ==> (#[trigger] calls[i]).0 < index,
    ensures
        slot(calls, index) == at,
{
    lemma_slot(calls, index);
    let s = slot(calls, index);
    if s < at {
        assert(calls[s].0 >= index);
    }
    if at < s {
        assert(calls[at].0 >= index);
    }
}

/// Setting a call keeps the indices rising.
pub proof fn lemma_with_call_rising(calls: Seq<(u32, CallView)>, index: u32, call: CallView)
    requires
        rising(calls),
    ensures
        rising(with_call(calls, index, call)),
{
    lemma_slot(calls, index);
    let at = slot(calls, index);
    let after = with_call(calls, index, call);
    let fresh = call_at(calls, index) is None;
    assert forall|i: int, j: int| 0 <= i < j < after.len() implies (#[trigger] after[i]).0 < (
    #[trigger] after[j]).0 by {
        let si = if fresh && i > at {
            i - 1
        } else {
            i
        };
        let sj = if fresh && j > at {
            j - 1
        } else {
            j
        };
        if i != at {
            assert(after[i].0 == calls[si].0);
        }
        if j != at {
            assert(after[j].0 == calls[sj].0);
        }
        if i != at && j != at {
            assert(calls[si].0 < calls[sj].0);
        }
        if i == at && fresh && at < calls.len() {
            assert(calls[at].0 > index);
            if sj > at {
                assert(calls[at].0 < calls[sj].0);
            }
        }
        if i == at && !fresh {
            assert(calls[at].0 < calls[sj].0);
        }
    }
}

/// A call that was set is found again, and no other call is touched.
pub proof fn law_set_then_call_at(
    calls: Seq<(u32, CallView)>,
    index: u32,
    call: CallView,
    other: u32,
)
    requires
        rising(calls),
    ensures
        call_at(with_call(calls, index, call), index) == Some(call),
        other != index ==> call_at(with_call(calls, index, call), other) == call_at(calls, other),
{
    lemma_slot(calls, index);
    lemma_slot(calls, other);
    lemma_with_call_rising(calls, index, call);
    let at = slot(calls, index);
    let after = with_call(calls, index, call);
    let fresh = call_at(calls, index) is None;
    assert forall|i: int| 0 <= i < at implies (#[trigger] after[i]).0 < index by {
        assert(calls[i].0 < index);
    }
    lemma_slot_is(after, index, at);
    if other != index {
        let p = slot(calls, other);
        let q = if fresh && index < other {
            p + 1
        } else {
            p
        };
        if fresh && index < other {
            assert(at <= p) by {
                if p < at {
                    assert(calls[p].0 < index);
                }
            }
        }
        if index > other {
            assert(p <= at) by {
                if at < p {
                    assert(calls[at].0 < other);
                }
            }
        }
        assert forall|i: int| 0 <= i < q implies (#[trigger] after[i]).0 < other by {
            if i != at {
                let si = if fresh && i > at {
                    i - 1
                } else {
                    i
                };
                assert(after[i] == calls[si]);
                assert(si < p);
            }
        }
        if q < after.len() {
            if q != at {
                let sq = if fresh && q > at {
                    q - 1
                } else {
                    q
                };
                assert(after[q] == calls[sq]);
            }
        }
        lemma_slot_is(after, other, q);
    }
}

/// Calls by index, in the order of the index.
pub struct CallTable {
    entries: Vec<(u32, ToolCall)>,
}

impl View for CallTable {
    type V = Seq<(u32, CallView)>;

    closed spec fn view(&self) -> Seq<(u32, CallView)> {
        Seq::new(self.entries@.len(), |i: int| (self.entries@[i].0, self.entries@[i].1@))
    }
}

impl CallTable {
    #[verifier::type_invariant]
    closed spec fn indices_rise(self) -> bool {
        rising(self@)
    }

    /// The table without calls.
    pub fn new() -> (t: CallTable)
        ensures
            t@ == Seq::<(u32, CallView)>::empty(),
    {
        let t = CallTable { entries: Vec::new() };
        assert(t@ =~= Seq::<(u32, CallView)>::empty());
        t
    }

    pub fn is_empty(&self) -> (b: bool)
        ensures
            b == (self@.len() == 0),
    {
        self.entries.len() == 0
    }

    /// Takes the call with that index out, or none.
    pub fn take(&mut self, index: u32) -> (call: Option<ToolCall>)
        ensures
            match call {
                Some(c) => {
                    &&& call_at(old(self)@, index) == Some(c@)
                    &&& final(self)@ == old(self)@.remove(slot(old(self)@, index))
                },
                None => call_at(old(self)@, index) is None && final(self)@ == old(self)@,
            },
            rising(old(self)@),
    {
        proof {
            use_type_invariant(&*self);
        }
        let at: usize = self.find(index);
        if at < self.entries.len() && self.entries[at].0 == index {
            let ghost before = self@;
            let mut entries: Vec<(u32, ToolCall)> = Vec::new();
            std::mem::swap(&mut entries, &mut self.entries);
            let (_, call) = entries.remove(at);
            assert((CallTable { entries })@ =~= before.remove(at as int));
            assert(rising(before.remove(at as int))) by {
                let after = before.remove(at as int);
                assert forall|i: int, j: int| 0 <= i < j < after.len() implies (
                #[trigger] after[i]).0 < (#[trigger] after[j]).0 by {
                    let si = if i >= at {
                        i + 1
                    } else {
                        i
                    };
                    let sj = if j >= at {
                        j + 1
                    } else {
                        j
                    };
                    assert(before[si].0 < before[sj].0);
                }
            }
            self.entries = entries;
            Some(call)
        } else {
            None
        }
    }

    fn find(&self, index: u32) -> (at: usize)
        ensures
            at == slot(self@, index),
            at <= self@.len(),
    {
        let mut i: usize = 0;
        while i < self.entries.len() && self.entries[i].0 < index
            invariant
                i <= self.entries@.len(),
                self@.len() == self.entries@.len(),
                forall|k: int| 0 <= k < i ==> (#[trigger] self@[k]).0 < index,
            decreases self.entries@.len() - i,
        {
            assert(self@[i as int].0 == self.entries@[i as int].0);
            i += 1;
        }
        proof {
            assert(i < self.entries@.len() ==> self@[i as int].0 == self.entries@[i as int].0);
            lemma_slot_is(self@, index, i as int);
        }
        i
    }

    /// Sets the call with that index.
    pub fn set(&mut self, index: u32, call: ToolCall)
        ensures
            final(self)@ == with_call(old(self)@, index, call@),
    {
        proof {
            use_type_invariant(&*self);
            lemma_with_call_rising(self@, index, call@);
        }
        let at: usize = self.find(index);
        let ghost before = self@;
        let ghost call_view = call@;
        let mut entries: Vec<(u32, ToolCall)> = Vec::new();
        std::mem::swap(&mut entries, &mut self.entries);
        if at < entries.len() && entries[at].0 == index {
            entries.set(at, (index, call));
        } else {
            entries.insert(at, (index, call));
        }
        assert((CallTable { entries })@ =~= with_call(before, index, call_view));
        self.entries = entries;
    }

    /// Takes all calls out, in the order of their index.
    pub fn drain(&mut self) -> (calls: Vec<ToolCall>)
        ensures
            final(self)@ == Seq::<(u32, CallView)>::empty(),
            calls@.len() == old(self)@.len(),
            forall|i: int| 0 <= i < calls@.len() ==> (#[trigger] calls@[i])@ == old(self)@[i].1,
            rising(old(self)@),
    {
        proof {
            use_type_invariant(&*self);
        }
        let ghost before = self@;
        let mut entries: Vec<(u32, ToolCall)> = Vec::new();
        std::mem::swap(&mut entries, &mut self.entries);
        assert(self@ =~= Seq::<(u32, CallView)>::empty());
        let ghost taken = entries@;
        let mut calls: Vec<ToolCall> = Vec::new();
        while entries.len() > 0
            invariant
                calls@.len() + entries@.len() == taken.len(),
                entries@ == taken.skip(calls@.len() as int),
                before.len() == taken.len(),
                forall|i: int| 0 <= i < taken.len() ==> (#[trigger] before[i]).1 == taken[i].1@,
                forall|i: int| 0 <= i < calls@.len() ==> (#[trigger] calls@[i])@ == before[i].1,
            decreases entries@.len(),
        {
            let (_, call) = entries.remove(0);
            assert(call@ == before[calls@.len() as int].1);
            calls.push(call);
            assert(entries@ =~= taken.skip(calls@.len() as int));
        }
        calls
    }
}

/// Putting a call back where one was taken is setting it.
pub proof fn lemma_take_then_set(calls: Seq<(u32, CallView)>, index: u32, call: CallView)
    requires
        rising(calls),
        call_at(calls, index) is Some,
    ensures
        with_call(calls.remove(slot(calls, index)), index, call) == with_call(calls, index, call),
{
    lemma_slot(calls, index);
    let at = slot(calls, index);
    let less = calls.remove(at);
    assert forall|i: int| 0 <= i < at implies (#[trigger] less[i]).0 < index by {
        assert(less[i] == calls[i]);
    }
    if at < less.len() {
        assert(less[at] == calls[at + 1]);
        assert(calls[at].0 < calls[at + 1].0);
    }
    lemma_slot_is(less, index, at);
    assert(with_call(less, index, call) =~= with_call(calls, index, call));
}

/// Every call is found under its index, and under no other.
pub proof fn law_a_call_is_found_under_its_index(
    calls: Seq<(u32, CallView)>,
    i: int,
    index: u32,
)
    requires
        rising(calls),
    ensures
        0 <= i < calls.len() ==> call_at(calls, calls[i].0) == Some(calls[i].1),
        call_at(calls, index) is Some <==> exists|k: int|
            0 <= k < calls.len() && (#[trigger] calls[k]).0 == index,
    decreases calls.len(),
{
    if calls.len() > 0 {
        let rest = calls.skip(1);
        assert(rising(rest)) by {
            assert forall|a: int, b: int| 0 <= a < b < rest.len() implies (#[trigger] rest[a]).0 < (
            #[trigger] rest[b]).0 by {
                assert(rest[a] == calls[a + 1]);
                assert(rest[b] == calls[b + 1]);
            }
        }
        law_a_call_is_found_under_its_index(rest, i - 1, index);
        if 0 < i < calls.len() {
            assert(calls[0].0 < calls[i].0);
            assert(rest[i - 1] == calls[i]);
            assert(slot(calls, calls[i].0) == 1 + slot(rest, calls[i].0));
            lemma_slot_within(rest, calls[i].0);
        }
        lemma_slot_within(rest, index);
        if exists|k: int| 0 <= k < calls.len() && (#[trigger] calls[k]).0 == index {
            let k = choose|k: int| 0 <= k < calls.len() && (#[trigger] calls[k]).0 == index;
            if k > 0 {
                assert(calls[0].0 < calls[k].0);
                assert(rest[k - 1].0 == index);
            }
        }
    }
}

proof fn lemma_slot_within(calls: Seq<(u32, CallView)>, index: u32)
    ensures
        0 <= slot(calls, index) <= calls.len(),
    decreases calls.len(),
{
    if calls.len() > 0 && calls[0].0 < index {
        lemma_slot_within(calls.skip(1), index);
    }
}

} // verus!
