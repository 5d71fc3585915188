//! Lazy reconciliation of an index's attribute configuration.
//!
//! Setting a search index's special attributes is expensive on the external
//! service even when the new value equals the old one, so the desired lists
//! are written only when they differ from what the index reports. The
//! decision logic lives here as a step machine: the caller performs one
//! network call per step ([`Reconciler::next_action`]) and feeds the outcome
//! back ([`Reconciler::on_fetched`], [`Reconciler::on_updated`],
//! [`Reconciler::on_error`]).
//!
//! Comparison is exact sequence equality, order included: callers must pass
//! the desired lists in the canonical order the service itself reports, or
//! spurious updates follow.

use vstd::prelude::*;

use crate::acl::str_eq;

verus! {

/// Which attribute configuration an update would write.
#[derive(Clone, Copy, PartialEq, Eq, Structural, Debug)]
pub enum AttrKind {
    Searchable,
    Filterable,
}

/// Where a reconciliation run stands.
#[derive(Clone, Copy, PartialEq, Eq, Structural, Debug)]
pub enum Phase {
    /// The current searchable attributes must be fetched next.
    SearchableFetch,
    /// The searchable attributes differed and must be written.
    SearchableUpdate,
    /// The current filterable attributes must be fetched next.
    FilterableFetch,
    /// The filterable attributes differed and must be written.
    FilterableUpdate,
    /// Both attribute kinds are reconciled.
    Done,
    /// A fetch or update failed; the run is aborted.
    Failed,
}

/// The next outside call a run asks its driver to perform.
pub enum Action {
    /// Fetch the index's current searchable attributes.
    FetchSearchable,
    /// Write these searchable attributes to the index.
    SetSearchable(Vec<String>),
    /// Fetch the index's current filterable attributes.
    FetchFilterable,
    /// Write these filterable attributes to the index.
    SetFilterable(Vec<String>),
    /// The run succeeded; nothing is left to do.
    Finish,
    /// The run failed; surface the error to the caller.
    Abort,
}

/// The phase a fetch outcome leads to: matching attributes skip the write.
pub open spec fn fetch_step(
    phase: Phase,
    desired_searchable: Seq<Seq<char>>,
    desired_filterable: Seq<Seq<char>>,
    current: Seq<Seq<char>>,
) -> Phase {
    match phase {
        Phase::SearchableFetch => if current == desired_searchable {
            Phase::FilterableFetch
        } else {
            Phase::SearchableUpdate
        },
        Phase::FilterableFetch => if current == desired_filterable {
            Phase::Done
        } else {
            Phase::FilterableUpdate
        },
        _ => phase,
    }
}

/// The phase an acknowledged update leads to.
pub open spec fn update_step(phase: Phase) -> Phase {
    match phase {
        Phase::SearchableUpdate => Phase::FilterableFetch,
        Phase::FilterableUpdate => Phase::Done,
        _ => phase,
    }
}

/// The updates a failure-free run writes, each with its exact payload: the
/// machine simulated from its initial phase over the two fetch outcomes.
pub open spec fn run_updates(
    desired_searchable: Seq<Seq<char>>,
    desired_filterable: Seq<Seq<char>>,
    current_searchable: Seq<Seq<char>>,
    current_filterable: Seq<Seq<char>>,
) -> Seq<(AttrKind, Seq<Seq<char>>)> {
    let after_first = fetch_step(
        Phase::SearchableFetch,
        desired_searchable,
        desired_filterable,
        current_searchable,
    );
    let first_updates: Seq<(AttrKind, Seq<Seq<char>>)> = if after_first
        == Phase::SearchableUpdate {
        seq![(AttrKind::Searchable, desired_searchable)]
    } else {
        Seq::empty()
    };
    let before_second = update_step(after_first);
    let after_second = fetch_step(
        before_second,
        desired_searchable,
        desired_filterable,
        current_filterable,
    );
    let second_updates: Seq<(AttrKind, Seq<Seq<char>>)> = if after_second
        == Phase::FilterableUpdate {
        seq![(AttrKind::Filterable, desired_filterable)]
    } else {
        Seq::empty()
    };
    first_updates + second_updates
}

/// A reconciliation run for one index: the desired attribute lists and the
/// phase reached so far.
pub struct Reconciler {
    desired_searchable: Vec<String>,
    desired_filterable: Vec<String>,
    phase: Phase,
}

impl Reconciler {
    /// The desired searchable attributes, as given at the start.
    pub closed spec fn searchable(&self) -> Seq<Seq<char>> {
        self.desired_searchable.deep_view()
    }

    /// The desired filterable attributes, as given at the start.
    pub closed spec fn filterable(&self) -> Seq<Seq<char>> {
        self.desired_filterable.deep_view()
    }

    /// The phase the run stands in.
    pub closed spec fn spec_phase(&self) -> Phase {
        self.phase
    }

    /// Start a run that drives an index toward the two desired lists.
    pub fn new(desired_searchable: Vec<String>, desired_filterable: Vec<String>) -> (r: Self)
        ensures
            r.searchable() == desired_searchable.deep_view(),
            r.filterable() == desired_filterable.deep_view(),
            r.spec_phase() == Phase::SearchableFetch,
    {
        Reconciler { desired_searchable, desired_filterable, phase: Phase::SearchableFetch }
    }

    /// The phase as a value the driver can match on.
    pub fn phase(&self) -> (r: Phase)
        ensures
            r == self.spec_phase(),
    {
        self.phase
    }

    /// Whether the run has ended, successfully or not.
    pub fn is_finished(&self) -> (r: bool)
        ensures
            r == (self.spec_phase() == Phase::Done || self.spec_phase() == Phase::Failed),
    {
        matches!(self.phase, Phase::Done | Phase::Failed)
    }

    /// The outside call to perform next. In an update phase this is a write
    /// whose payload is exactly the desired list.
    pub fn next_action(&self) -> (r: Action)
        ensures
            self.spec_phase() == Phase::SearchableFetch ==> r is FetchSearchable,
            self.spec_phase() == Phase::SearchableUpdate ==> (r matches Action::SetSearchable(v)
                && v.deep_view() == self.searchable()),
            self.spec_phase() == Phase::FilterableFetch ==> r is FetchFilterable,
            self.spec_phase() == Phase::FilterableUpdate ==> (r matches Action::SetFilterable(v)
                && v.deep_view() == self.filterable()),
            self.spec_phase() == Phase::Done ==> r is Finish,
            self.spec_phase() == Phase::Failed ==> r is Abort,
    {
        match self.phase {
            Phase::SearchableFetch => Action::FetchSearchable,
            Phase::SearchableUpdate => Action::SetSearchable(
                clone_attrs(&self.desired_searchable),
            ),
            Phase::FilterableFetch => Action::FetchFilterable,
            Phase::FilterableUpdate => Action::SetFilterable(
                clone_attrs(&self.desired_filterable),
            ),
            Phase::Done => Action::Finish,
            Phase::Failed => Action::Abort,
        }
    }

    /// Record the attribute list a fetch returned: a list already equal to
    /// the desired one skips the update phase for its kind.
    pub fn on_fetched(&mut self, current: &Vec<String>)
        requires
            old(self).spec_phase() == Phase::SearchableFetch || old(self).spec_phase()
                == Phase::FilterableFetch,
        ensures
            final(self).searchable() == old(self).searchable(),
            final(self).filterable() == old(self).filterable(),
            final(self).spec_phase() == fetch_step(
                old(self).spec_phase(),
                old(self).searchable(),
                old(self).filterable(),
                current.deep_view(),
            ),
    {
        let desired_matches = match self.phase {
            Phase::SearchableFetch => attrs_equal(current, &self.desired_searchable),
            _ => attrs_equal(current, &self.desired_filterable),
        };
        let next = match (self.phase, desired_matches) {
            (Phase::SearchableFetch, true) => Phase::FilterableFetch,
            (Phase::SearchableFetch, false) => Phase::SearchableUpdate,
            (_, true) => Phase::Done,
            (_, false) => Phase::FilterableUpdate,
        };
        self.phase = next;
    }

    /// Record that an update call was acknowledged.
    pub fn on_updated(&mut self)
        requires
            old(self).spec_phase() == Phase::SearchableUpdate || old(self).spec_phase()
                == Phase::FilterableUpdate,
        ensures
            final(self).searchable() == old(self).searchable(),
            final(self).filterable() == old(self).filterable(),
            final(self).spec_phase() == update_step(old(self).spec_phase()),
    {
        self.phase = match self.phase {
            Phase::SearchableUpdate => Phase::FilterableFetch,
            _ => Phase::Done,
        };
    }

    /// Record that a fetch or update failed: the run aborts at once, with no
    /// retry; a searchable-side failure leaves the filterable side untouched.
    pub fn on_error(&mut self)
        ensures
            final(self).searchable() == old(self).searchable(),
            final(self).filterable() == old(self).filterable(),
            final(self).spec_phase() == Phase::Failed,
    {
        self.phase = Phase::Failed;
    }
}

/// Exact elementwise equality of two attribute lists, order included.
pub fn attrs_equal(a: &Vec<String>, b: &Vec<String>) -> (r: bool)
    ensures
        r == (a.deep_view() == b.deep_view()),
{
    if a.len() != b.len() {
        proof {
            if a.deep_view() == b.deep_view() {
                assert(a.deep_view().len() == b.deep_view().len());
            }
        }
        return false;
    }
    let mut i: usize = 0;
    while i < a.len()
        invariant
            a@.len() == b@.len(),
            i <= a@.len(),
            forall|j: int| 0 <= j < i ==> a.deep_view()[j] == b.deep_view()[j],
        decreases a@.len() - i,
    {
        if !str_eq(a[i].as_str(), b[i].as_str()) {
            proof {
                assert(a.deep_view()[i as int] != b.deep_view()[i as int]);
            }
            return false;
        }
        i += 1;
    }
    proof {
        assert(a.deep_view() =~= b.deep_view());
    }
    true
}

/// Clone an attribute list, values unchanged.
fn clone_attrs(v: &Vec<String>) -> (r: Vec<String>)
    ensures
        r.deep_view() == v.deep_view(),
{
    let mut out: Vec<String> = Vec::new();
    let mut i: usize = 0;
    while i < v.len()
        invariant
            i <= v@.len(),
            out.deep_view().len() == i,
            forall|j: int| 0 <= j < i ==> out.deep_view()[j] == v.deep_view()[j],
        decreases v@.len() - i,
    {
        let ghost old_dv = out.deep_view();
        let s = v[i].clone();
        out.push(s);
        proof {
            assert(out.deep_view() =~= old_dv.push(s@));
        }
        i += 1;
    }
    proof {
        assert(out.deep_view() =~= v.deep_view());
    }
    out
}

/// Law: when each fetched list already equals the desired one, a run writes
/// nothing at all (idempotence of reconciliation).
pub proof fn lemma_reconcile_idempotent(
    desired_searchable: Seq<Seq<char>>,
    desired_filterable: Seq<Seq<char>>,
)
    ensures
        run_updates(
            desired_searchable,
            desired_filterable,
            desired_searchable,
            desired_filterable,
        ) == Seq::<(AttrKind, Seq<Seq<char>>)>::empty(),
{
    assert(run_updates(
        desired_searchable,
        desired_filterable,
        desired_searchable,
        desired_filterable,
    ) =~= Seq::<(AttrKind, Seq<Seq<char>>)>::empty());
}

/// Law: a failure-free run writes exactly one update per attribute kind
/// whose current list differs from the desired one — with the desired list
/// as the payload — and none for a kind that already matches; the two kinds
/// are decided independently.
pub proof fn lemma_reconcile_exact_updates(
    desired_searchable: Seq<Seq<char>>,
    desired_filterable: Seq<Seq<char>>,
    current_searchable: Seq<Seq<char>>,
    current_filterable: Seq<Seq<char>>,
)
    ensures
        run_updates(
            desired_searchable,
            desired_filterable,
            current_searchable,
            current_filterable,
        ) == (if current_searchable != desired_searchable {
            seq![(AttrKind::Searchable, desired_searchable)]
        } else {
            Seq::<(AttrKind, Seq<Seq<char>>)>::empty()
        }) + (if current_filterable != desired_filterable {
            seq![(AttrKind::Filterable, desired_filterable)]
        } else {
            Seq::<(AttrKind, Seq<Seq<char>>)>::empty()
        }),
{
    let expected = (if current_searchable != desired_searchable {
        seq![(AttrKind::Searchable, desired_searchable)]
    } else {
        Seq::<(AttrKind, Seq<Seq<char>>)>::empty()
    }) + (if current_filterable != desired_filterable {
        seq![(AttrKind::Filterable, desired_filterable)]
    } else {
        Seq::<(AttrKind, Seq<Seq<char>>)>::empty()
    });
    assert(run_updates(
        desired_searchable,
        desired_filterable,
        current_searchable,
        current_filterable,
    ) =~= expected);
}

} // verus!
