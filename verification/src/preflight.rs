//! What is settled before the first key is tried: which files go with the prompt, which
//! configurations can be used, and in which order.

use std::sync::Arc;
use vstd::prelude::*;

use crate::config::{usable, CfgEntry, CfgView};
use crate::files::{ReadFile, ReadFileView};
use crate::reading::sound_file;

verus! {

/// Why no key is tried.
#[derive(Debug, PartialEq, Eq)]
pub struct PreflightError {
    pub status: &'static str,
    pub message: String,
}

/// A `PreflightError` over sequences of characters.
pub struct PreflightErrorView {
    pub status: Seq<char>,
    pub message: Seq<char>,
}

impl View for PreflightError {
    type V = PreflightErrorView;

    open spec fn view(&self) -> PreflightErrorView {
        PreflightErrorView { status: self.status@, message: self.message@ }
    }
}

impl PreflightError {
    /// An error with this status and this message.
    pub fn new(status: &'static str, message: String) -> (error: Self)
        ensures
            error@ == (PreflightErrorView { status: status@, message: message@ }),
    {
        PreflightError { status, message }
    }
}

/// What is settled: the files, a snapshot of the configurations, the positions of those
/// that can be used, and the order in which these are tried. `order` holds positions in
/// `valid`, and `valid` holds positions in `cfg_snapshot`.
#[derive(Debug, PartialEq, Eq)]
pub struct Preflight {
    pub read_files: Vec<ReadFile>,
    pub cfg_snapshot: Arc<Vec<CfgEntry>>,
    pub valid: Vec<usize>,
    pub order: Vec<usize>,
}

/// A `Preflight` over sequences.
pub struct PreflightView {
    pub files: Seq<ReadFileView>,
    pub cfgs: Seq<CfgView>,
    pub valid: Seq<usize>,
    pub order: Seq<usize>,
}

impl View for Preflight {
    type V = PreflightView;

    open spec fn view(&self) -> PreflightView {
        PreflightView {
            files: self.read_files.deep_view(),
            cfgs: self.cfg_snapshot.deep_view(),
            valid: self.valid@,
            order: self.order@,
        }
    }
}

/// The positions of the configurations that can be used, in increasing order.
pub open spec fn usable_positions(cfgs: Seq<CfgView>) -> Seq<usize>
    decreases cfgs.len(),
{
    if cfgs.len() == 0 {
        Seq::empty()
    } else {
        let before = usable_positions(cfgs.drop_last());
        if usable(cfgs.last()) {
            before.push((cfgs.len() - 1) as usize)
        } else {
            before
        }
    }
}

/// The positions below `n` in turn, from where the rotation stands and around.
pub open spec fn rotation(n: nat, pointer: nat) -> Seq<usize> {
    Seq::new(n, |i: int| ((pointer as int % n as int + i) % n as int) as usize)
}

impl PreflightView {
    /// The configuration at a position of `valid`.
    pub open spec fn cfg_at(self, pos: int) -> CfgView {
        self.cfgs[self.valid[pos] as int]
    }

    /// There is a configuration to try, each position stands for one that can be used, and
    /// the files are sound.
    pub open spec fn wf(self) -> bool {
        &&& forall|i: int| 0 <= i < self.files.len() ==> sound_file(#[trigger] self.files[i])
        &&& self.cfgs.len() <= usize::MAX
        &&& self.valid == usable_positions(self.cfgs)
        &&& self.valid.len() > 0
        &&& exists|pointer: nat| self.order == rotation(self.valid.len(), pointer)
    }
}

/// A position of `usable_positions` stands for a configuration that can be used.
pub(crate) proof fn lemma_usable_position(cfgs: Seq<CfgView>, i: int)
    requires
        cfgs.len() <= usize::MAX,
        0 <= i < usable_positions(cfgs).len(),
    ensures
        usable_positions(cfgs)[i] < cfgs.len(),
        usable(cfgs[usable_positions(cfgs)[i] as int]),
    decreases cfgs.len(),
{
    let before = usable_positions(cfgs.drop_last());
    if i < before.len() {
        lemma_usable_position(cfgs.drop_last(), i);
    }
}

/// There are no more positions than configurations.
pub(crate) proof fn lemma_no_more_positions(cfgs: Seq<CfgView>)
    ensures
        usable_positions(cfgs).len() <= cfgs.len(),
    decreases cfgs.len(),
{
    if cfgs.len() > 0 {
        lemma_no_more_positions(cfgs.drop_last());
    }
}

/// Every configuration that can be used has a position, and the positions increase.
pub proof fn law_positions_are_the_usable_ones(cfgs: Seq<CfgView>)
    requires
        cfgs.len() <= usize::MAX,
    ensures
        forall|i: int|
            0 <= i < usable_positions(cfgs).len() ==> {
                &&& (#[trigger] usable_positions(cfgs)[i]) < cfgs.len()
                &&& usable(cfgs[usable_positions(cfgs)[i] as int])
            },
        forall|k: int|
            0 <= k < cfgs.len() && usable(#[trigger] cfgs[k]) ==> usable_positions(cfgs).contains(
                k as usize,
            ),
        forall|i: int, j: int|
            0 <= i < j < usable_positions(cfgs).len() ==> (#[trigger] usable_positions(cfgs)[i]) < (
            #[trigger] usable_positions(cfgs)[j]),
    decreases cfgs.len(),
{
    if cfgs.len() > 0 {
        let init = cfgs.drop_last();
        let before = usable_positions(init);
        let all = usable_positions(cfgs);
        law_positions_are_the_usable_ones(init);
        assert forall|i: int| 0 <= i < all.len() implies (#[trigger] all[i]) < cfgs.len() && usable(
            cfgs[all[i] as int],
        ) by {
            lemma_usable_position(cfgs, i);
        }
        assert forall|k: int| 0 <= k < cfgs.len() && usable(#[trigger] cfgs[k]) implies all.contains(
            k as usize,
        ) by {
            if k < init.len() {
                assert(init[k] == cfgs[k]);
                assert(before.contains(k as usize));
                let i = choose|i: int| 0 <= i < before.len() && before[i] == k as usize;
                assert(all[i] == k as usize);
            } else {
                assert(all.last() == k as usize);
            }
        }
        assert forall|i: int, j: int| 0 <= i < j < all.len() implies (#[trigger] all[i]) < (
        #[trigger] all[j]) by {
            if j == before.len() {
                lemma_usable_position(init, i);
            } else {
                assert(before[i] < before[j]);
            }
        }
    }
}

/// The order begins where the rotation stands and takes every position once.
pub proof fn law_rotation_takes_each_once(n: nat, pointer: nat)
    requires
        0 < n <= usize::MAX,
    ensures
        rotation(n, pointer).len() == n,
        rotation(n, pointer)[0] == pointer % n,
        forall|i: int| 0 <= i < n ==> (#[trigger] rotation(n, pointer)[i]) < n,
        forall|i: int|
            0 <= i < n - 1 ==> rotation(n, pointer)[i + 1] == ((#[trigger] rotation(n, pointer)[i])
                + 1) % n as int,
        rotation(n, pointer).no_duplicates(),
        forall|pos: int| 0 <= pos < n ==> #[trigger] rotation(n, pointer).contains(pos as usize),
{
    let order = rotation(n, pointer);
    let m = n as int;
    let start = pointer as int % m;
    lemma_rotation_at(n, pointer, 0);
    assert forall|i: int| 0 <= i < n implies (#[trigger] order[i]) < n by {
        lemma_rotation_at(n, pointer, i);
    }
    assert forall|i: int| 0 <= i < n - 1 implies order[i + 1] == ((#[trigger] order[i]) + 1)
        % m by {
        lemma_rotation_at(n, pointer, i);
        lemma_rotation_at(n, pointer, i + 1);
        lemma_wrap(order[i] + 1, m);
    }
    assert forall|i: int, j: int| 0 <= i < n && 0 <= j < n && i != j implies order[i]
        != order[j] by {
        lemma_rotation_at(n, pointer, i);
        lemma_rotation_at(n, pointer, j);
    }
    assert forall|pos: int| 0 <= pos < n implies #[trigger] order.contains(pos as usize) by {
        let i = if pos >= start {
            pos - start
        } else {
            pos - start + m
        };
        lemma_rotation_at(n, pointer, i);
        assert(order[i] == pos as usize);
    }
}

/// A place of the order, without a remainder but for the first place's.
proof fn lemma_rotation_at(n: nat, pointer: nat, i: int)
    requires
        0 < n <= usize::MAX,
        0 <= i < n,
    ensures
        0 <= pointer as int % n as int,
        (pointer as int % n as int) < n,
        rotation(n, pointer)[i] == if pointer as int % n as int + i < n {
            pointer as int % n as int + i
        } else {
            pointer as int % n as int + i - n
        },
{
    lemma_wrap(pointer as int % n as int + i, n as int);
}

/// The order begins at a position where the rotation stands.
pub(crate) proof fn lemma_rotation_begins(n: nat, pointer: nat)
    requires
        pointer < n <= usize::MAX,
    ensures
        rotation(n, pointer)[0] == pointer,
{
    vstd::arithmetic::div_mod::lemma_small_mod(pointer, n);
    lemma_rotation_at(n, pointer, 0);
}

/// The remainder of a number below twice the divisor.
proof fn lemma_wrap(x: int, m: int)
    requires
        0 <= x < 2 * m,
    ensures
        x % m == if x < m {
            x
        } else {
            x - m
        },
{
    if x < m {
        vstd::arithmetic::div_mod::lemma_small_mod(x as nat, m as nat);
    } else {
        vstd::arithmetic::div_mod::lemma_small_mod((x - m) as nat, m as nat);
        vstd::arithmetic::div_mod::lemma_mod_add_multiples_vanish(x - m, m);
    }
}

impl Preflight {
    /// The configuration at a position of `valid`.
    pub fn cfg_at(&self, pos: usize) -> (cfg: &CfgEntry)
        requires
            self@.wf(),
            pos < self@.valid.len(),
        ensures
            cfg@ == self@.cfg_at(pos as int),
            usable(cfg@),
    {
        proof {
            lemma_usable_position(self@.cfgs, pos as int);
        }
        assert(self.cfg_snapshot.deep_view().len() == self.cfg_snapshot@.len());
        let index = self.valid[pos];
        let cfg = &self.cfg_snapshot[index];
        assert(self.cfg_snapshot.deep_view()[index as int] == cfg@);
        cfg
    }
}

/// The positions of the configurations that can be used.
pub fn valid_positions(cfgs: &Vec<CfgEntry>) -> (valid: Vec<usize>)
    ensures
        valid@ == usable_positions(cfgs.deep_view()),
{
    let mut valid: Vec<usize> = Vec::new();
    let mut i: usize = 0;
    while i < cfgs.len()
        invariant
            i <= cfgs.len(),
            valid@ == usable_positions(cfgs.deep_view().take(i as int)),
        decreases cfgs.len() - i,
    {
        let ghost upto = cfgs.deep_view().take(i + 1);
        assert(upto.drop_last() == cfgs.deep_view().take(i as int));
        assert(upto.last() == cfgs@[i as int]@);
        if cfgs[i].is_usable() {
            valid.push(i);
        }
        i = i + 1;
    }
    assert(cfgs.deep_view().take(cfgs.len() as int) == cfgs.deep_view());
    valid
}

/// The positions below `n` in turn, from where the rotation stands and around.
pub fn rotation_order(n: usize, pointer: usize) -> (order: Vec<usize>)
    requires
        n > 0,
    ensures
        order@ == rotation(n as nat, pointer as nat),
{
    let start = pointer % n;
    let ghost all = rotation(n as nat, pointer as nat);
    let mut order: Vec<usize> = Vec::new();
    let mut i: usize = 0;
    while i < n
        invariant
            i <= n,
            start == pointer % n,
            start < n,
            all == rotation(n as nat, pointer as nat),
            order@ == all.take(i as int),
        decreases n - i,
    {
        proof {
            lemma_wrap(start + i, n as int);
        }
        let pos = if i < n - start {
            start + i
        } else {
            i - (n - start)
        };
        order.push(pos);
        assert(all[i as int] == pos);
        assert(all.take(i + 1) == all.take(i as int).push(pos));
        i = i + 1;
    }
    assert(all.take(n as int) == all);
    order
}

/// A position stands for the configuration that the list of positions gives for it.
pub proof fn law_position_stands_for_its_configuration(pre: PreflightView, pos: int)
    requires
        pre.wf(),
        0 <= pos < pre.valid.len(),
    ensures
        pre.cfg_at(pos) == pre.cfgs[pre.valid[pos] as int],
        pre.cfg_at(pos).api_key.len() > 0,
        pre.cfg_at(pos).model.len() > 0,
{
    lemma_usable_position(pre.cfgs, pos);
}

/// One configuration that names a key and a model is enough for there to be a position, wherever
/// it stands in the list.
pub proof fn law_one_usable_configuration_is_enough(cfgs: Seq<CfgView>, k: int)
    requires
        cfgs.len() <= usize::MAX,
        0 <= k < cfgs.len(),
        cfgs[k].api_key.len() > 0,
        cfgs[k].model.len() > 0,
    ensures
        usable_positions(cfgs).len() > 0,
        usable_positions(cfgs).contains(k as usize),
{
    law_positions_are_the_usable_ones(cfgs);
    assert(usable(cfgs[k]));
}

/// What is said of these values is said of all that they hold.
pub proof fn law_preflight_views_leave_nothing_out(pre: Preflight, error: PreflightError)
    ensures
        pre@.valid == pre.valid@,
        pre@.order == pre.order@,
        pre@.files.len() == pre.read_files@.len(),
        forall|i: int|
            0 <= i < pre.read_files@.len() ==> #[trigger] pre@.files[i] == pre.read_files@[i]@,
        pre@.cfgs.len() == pre.cfg_snapshot@.len(),
        forall|i: int|
            0 <= i < pre.cfg_snapshot@.len() ==> #[trigger] pre@.cfgs[i] == pre.cfg_snapshot@[i]@,
        error@.status == error.status@,
        error@.message == error.message@,
{
}

} // verus!
