//! The keys of a call, tried one after the other.

use vstd::prelude::*;

use crate::config::{usable, CfgEntry, CfgView};
use crate::failure::{ErrorDetail, ErrorDetailView};
use crate::preflight::{
    law_rotation_takes_each_once, lemma_no_more_positions, rotation, Preflight, PreflightView,
};

verus! {

/// How far a call has come: what was settled for it, which place of the order is being
/// tried, and what went wrong with the keys at the places before.
#[derive(Debug, PartialEq, Eq)]
pub struct KeyRun {
    pub pre: Preflight,
    pub slot: usize,
    pub attempts: Vec<ErrorDetail>,
}

/// A `KeyRun` over sequences.
pub struct KeyRunView {
    pub pre: PreflightView,
    pub slot: nat,
    pub attempts: Seq<ErrorDetailView>,
}

impl View for KeyRun {
    type V = KeyRunView;

    open spec fn view(&self) -> KeyRunView {
        KeyRunView {
            pre: self.pre@,
            slot: self.slot as nat,
            attempts: self.attempts.deep_view(),
        }
    }
}

impl KeyRunView {
    /// A key is being tried, and each one before it has failed once.
    pub open spec fn wf(self) -> bool {
        &&& self.pre.wf()
        &&& self.slot < self.pre.order.len()
        &&& self.attempts.len() == self.slot
    }

    /// The position of the key that is being tried, among those that can be used.
    pub open spec fn pos(self) -> usize {
        self.pre.order[self.slot as int]
    }

    /// The configuration that is being tried.
    pub open spec fn cfg(self) -> CfgView {
        self.pre.cfg_at(self.pos() as int)
    }

    /// There is another key after this one.
    pub open spec fn has_next(self) -> bool {
        self.slot + 1 < self.pre.order.len()
    }

    /// The next key is tried, after this one failed so.
    pub open spec fn next(self, detail: ErrorDetailView) -> KeyRunView {
        KeyRunView {
            pre: self.pre,
            slot: self.slot + 1,
            attempts: self.attempts.push(detail),
        }
    }
}

/// The first key of the order is tried.
pub open spec fn first_key(pre: PreflightView) -> KeyRunView {
    KeyRunView { pre, slot: 0, attempts: Seq::empty() }
}

/// The place of the order that is being tried holds a position of a configuration that can
/// be used.
proof fn lemma_pos_is_valid(run: KeyRunView)
    requires
        run.wf(),
    ensures
        run.pre.order.len() == run.pre.valid.len(),
        run.pos() < run.pre.valid.len(),
{
    law_each_key_has_one_place(run.pre);
    assert(run.pre.order[run.slot as int] < run.pre.valid.len());
}

/// No two places of the order hold the same key, and every key that can be used has a place.
pub proof fn law_each_key_has_one_place(pre: PreflightView)
    requires
        pre.wf(),
    ensures
        pre.order.len() == pre.valid.len(),
        0 < pre.order.len() <= usize::MAX,
        pre.order.no_duplicates(),
        forall|i: int| 0 <= i < pre.order.len() ==> (#[trigger] pre.order[i]) < pre.valid.len(),
        forall|pos: int|
            0 <= pos < pre.valid.len() ==> #[trigger] pre.order.contains(pos as usize),
{
    let n = pre.valid.len();
    lemma_no_more_positions(pre.cfgs);
    let pointer = choose|pointer: nat| pre.order == rotation(n, pointer);
    law_rotation_takes_each_once(n, pointer);
}

impl KeyRun {
    /// Begins with the first key of the order.
    pub fn begin(pre: Preflight) -> (run: KeyRun)
        requires
            pre@.wf(),
        ensures
            run@ == first_key(pre@),
            run@.wf(),
    {
        let ghost settled = pre@;
        let attempts: Vec<ErrorDetail> = Vec::new();
        assert(attempts.deep_view() == Seq::<ErrorDetailView>::empty());
        proof {
            law_each_key_has_one_place(settled);
        }
        KeyRun { pre, slot: 0, attempts }
    }

    /// The position of the key that is being tried, among those that can be used.
    pub fn pos(&self) -> (pos: usize)
        requires
            self@.wf(),
        ensures
            pos == self@.pos(),
            pos < self@.pre.valid.len(),
    {
        proof {
            lemma_pos_is_valid(self@);
        }
        self.pre.order[self.slot]
    }

    /// The configuration that is being tried.
    pub fn cfg(&self) -> (cfg: &CfgEntry)
        requires
            self@.wf(),
        ensures
            cfg@ == self@.cfg(),
            usable(cfg@),
    {
        let pos = self.pos();
        self.pre.cfg_at(pos)
    }

    /// Whether there is another key after this one.
    pub fn has_next(&self) -> (result: bool)
        requires
            self@.wf(),
        ensures
            result == self@.has_next(),
    {
        self.slot < self.pre.order.len() - 1
    }

    /// Notes what went wrong with this key, and goes on to the next.
    pub fn next(self, detail: ErrorDetail) -> (run: KeyRun)
        requires
            self@.wf(),
            self@.has_next(),
        ensures
            run@ == self@.next(detail@),
            run@.wf(),
    {
        assert(self.pre.order@.len() == self.pre.order.len());
        let attempts = noted(self.attempts, detail);
        KeyRun { pre: self.pre, slot: self.slot + 1, attempts }
    }

    /// What went wrong with every key, with this one last.
    pub fn failures(self, detail: ErrorDetail) -> (attempts: Vec<ErrorDetail>)
        ensures
            attempts.deep_view() == self@.attempts.push(detail@),
    {
        noted(self.attempts, detail)
    }
}

/// The list with one more failure at its end.
fn noted(attempts: Vec<ErrorDetail>, detail: ErrorDetail) -> (all: Vec<ErrorDetail>)
    ensures
        all.deep_view() == attempts.deep_view().push(detail@),
{
    let ghost before = attempts.deep_view();
    let mut all = attempts;
    all.push(detail);
    assert(all.deep_view() == before.push(detail@));
    all
}

/// The walk begins at the first place without failures; the key at a place is the one that the
/// order gives; going on takes the next place and adds the failure at the end, and can be done
/// from every place but the last.
pub proof fn law_walk_takes_one_place_after_the_other(run: KeyRunView, detail: ErrorDetailView)
    requires
        run.wf(),
    ensures
        first_key(run.pre).slot == 0,
        first_key(run.pre).attempts.len() == 0,
        first_key(run.pre).pre == run.pre,
        run.pos() == run.pre.order[run.slot as int],
        run.cfg() == run.pre.cfgs[run.pre.valid[run.pre.order[run.slot as int] as int] as int],
        run.has_next() <==> run.slot < run.pre.order.len() - 1,
        run.next(detail).slot == run.slot + 1,
        run.next(detail).pre == run.pre,
        run.next(detail).attempts.len() == run.attempts.len() + 1,
        run.next(detail).attempts.last() == detail,
        forall|i: int|
            0 <= i < run.attempts.len() ==> #[trigger] run.next(detail).attempts[i]
                == run.attempts[i],
{
}

/// What is said of a walk is said of all that it holds.
pub proof fn law_walk_view_leaves_nothing_out(run: KeyRun)
    ensures
        run@.pre == run.pre@,
        run@.slot == run.slot,
        run@.attempts.len() == run.attempts@.len(),
        forall|i: int|
            0 <= i < run.attempts@.len() ==> #[trigger] run@.attempts[i] == run.attempts@[i]@,
{
}

} // verus!
