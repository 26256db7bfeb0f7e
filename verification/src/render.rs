//! The render-mode policy.
//!
//! The staged set is presented either as one draggable unit per path
//! (expanded mode) or as a single aggregate unit summarizing the whole set
//! (compact mode). The policy owns a model of the presentation layer's unit
//! list and, on every growth of the staged set, says exactly which units to
//! append and whether the previously shown aggregate must be retracted
//! first — so the presentation layer never shows two aggregates or a stale
//! count.

use vstd::prelude::*;

use crate::codec::{decode_spec, encode, encode_spec};
use crate::paths::{has_drive_letter_quirk, is_canonical_path};
use crate::staging::{clone_paths, vec_string_get};

verus! {

/// How the staged set is presented.
#[derive(Clone, Copy, PartialEq, Eq, Structural)]
pub enum RenderMode {
    /// One draggable unit per staged path.
    Expanded,
    /// A single draggable unit for the entire staged set.
    Compact,
}

/// Mathematical image of one render unit.
pub enum RenderUnitV {
    Individual { path: Seq<char>, export: Seq<Seq<char>> },
    Aggregate { export: Seq<Seq<char>> },
}

impl RenderUnitV {
    /// The paths this unit exports when dragged.
    pub open spec fn export(self) -> Seq<Seq<char>> {
        match self {
            RenderUnitV::Individual { export, .. } => export,
            RenderUnitV::Aggregate { export } => export,
        }
    }

    /// The text shown on the unit: an individual unit shows its path unless
    /// only icons are wanted; an aggregate unit always shows the element
    /// count and nothing per item.
    pub open spec fn label(self, icons_only: bool) -> Option<Seq<char>> {
        match self {
            RenderUnitV::Individual { path, .. } => if icons_only {
                None
            } else {
                Some(path)
            },
            RenderUnitV::Aggregate { export } => Some(count_label(export.len())),
        }
    }
}

/// One draggable unit handed to the presentation layer: either exactly one
/// staged path, or the whole staged set at the moment it was (re)created.
pub enum RenderUnit {
    Individual { path: String, export: Vec<String> },
    Aggregate { export: Vec<String> },
}

impl View for RenderUnit {
    type V = RenderUnitV;

    open spec fn view(&self) -> RenderUnitV {
        match self {
            RenderUnit::Individual { path, export } => RenderUnitV::Individual {
                path: path@,
                export: export.deep_view(),
            },
            RenderUnit::Aggregate { export } => RenderUnitV::Aggregate {
                export: export.deep_view(),
            },
        }
    }
}

impl DeepView for RenderUnit {
    type V = RenderUnitV;

    open spec fn deep_view(&self) -> RenderUnitV {
        self.view()
    }
}

impl RenderUnit {
    /// A copy carrying the same path text.
    pub fn clone_unit(&self) -> (r: RenderUnit)
        ensures
            r@ == self@,
    {
        match self {
            RenderUnit::Individual { path, export } => RenderUnit::Individual {
                path: path.clone(),
                export: clone_paths(export),
            },
            RenderUnit::Aggregate { export } => RenderUnit::Aggregate {
                export: clone_paths(export),
            },
        }
    }

    /// The paths this unit exports when dragged.
    pub fn export_paths(&self) -> (r: &Vec<String>)
        ensures
            r.deep_view() == self@.export(),
    {
        match self {
            RenderUnit::Individual { export, .. } => export,
            RenderUnit::Aggregate { export } => export,
        }
    }

    /// The `text/uri-list` payload this unit hands to the drag provider:
    /// the encoding of exactly the paths it exports.
    pub fn export_payload(&self) -> (r: String)
        requires
            forall|i: int| 0 <= i < self@.export().len() ==> is_canonical_path(
                #[trigger] self@.export()[i],
            ),
        ensures
            r@ == encode_spec(self@.export()),
            (forall|i: int| 0 <= i < self@.export().len() ==> !has_drive_letter_quirk(
                #[trigger] self@.export()[i],
            )) ==> decode_spec(r@) == self@.export(),
    {
        encode(self.export_paths())
    }

    /// The text shown on the unit, per the label policy.
    pub fn label(&self, icons_only: bool) -> (r: Option<String>)
        ensures
            r.deep_view() == self@.label(icons_only),
    {
        match self {
            RenderUnit::Individual { path, .. } => if icons_only {
                None
            } else {
                Some(path.clone())
            },
            RenderUnit::Aggregate { export } => Some(aggregate_label(export.len())),
        }
    }
}

/// The decimal digit character for `d`.
pub open spec fn spec_digit(d: nat) -> char {
    if d == 0 {
        '0'
    } else if d == 1 {
        '1'
    } else if d == 2 {
        '2'
    } else if d == 3 {
        '3'
    } else if d == 4 {
        '4'
    } else if d == 5 {
        '5'
    } else if d == 6 {
        '6'
    } else if d == 7 {
        '7'
    } else if d == 8 {
        '8'
    } else {
        '9'
    }
}

/// The usual decimal rendering of `n`, most significant digit first, no
/// leading zero except on zero itself.
pub open spec fn dec_digits(n: nat) -> Seq<char>
    decreases n,
{
    if n < 10 {
        seq![spec_digit(n)]
    } else {
        dec_digits(n / 10).push(spec_digit(n % 10))
    }
}

/// The label of an aggregate unit over `n` paths.
pub open spec fn count_label(n: nat) -> Seq<char> {
    dec_digits(n) + " elements"@
}

/// The one-character string for a single decimal digit.
fn digit_str(d: usize) -> (r: &'static str)
    requires
        d < 10,
    ensures
        r@ == seq![spec_digit(d as nat)],
{
    proof {
        reveal_strlit("0");
        reveal_strlit("1");
        reveal_strlit("2");
        reveal_strlit("3");
        reveal_strlit("4");
        reveal_strlit("5");
        reveal_strlit("6");
        reveal_strlit("7");
        reveal_strlit("8");
        reveal_strlit("9");
    }
    let r = if d == 0 {
        "0"
    } else if d == 1 {
        "1"
    } else if d == 2 {
        "2"
    } else if d == 3 {
        "3"
    } else if d == 4 {
        "4"
    } else if d == 5 {
        "5"
    } else if d == 6 {
        "6"
    } else if d == 7 {
        "7"
    } else if d == 8 {
        "8"
    } else {
        "9"
    };
    proof {
        assert(r@ =~= seq![spec_digit(d as nat)]);
    }
    r
}

/// The decimal rendering of `n`.
fn dec_string(n: usize) -> (r: String)
    ensures
        r@ == dec_digits(n as nat),
    decreases n,
{
    if n < 10 {
        String::from_str(digit_str(n))
    } else {
        let mut s = dec_string(n / 10);
        s.append(digit_str(n % 10));
        proof {
            assert(n as nat / 10 == (n / 10) as nat);
            assert(n as nat % 10 == (n % 10) as nat);
            assert(s@ =~= dec_digits(n as nat / 10).push(spec_digit(n as nat % 10)));
        }
        s
    }
}

/// The label text of an aggregate unit over `count` paths.
pub fn aggregate_label(count: usize) -> (r: String)
    ensures
        r@ == count_label(count as nat),
{
    let mut s = dec_string(count);
    proof {
        reveal_strlit(" elements");
    }
    s.append(" elements");
    s
}

/// Mathematical image of one presentation-layer instruction.
pub enum RenderActionV {
    Append(RenderUnitV),
    RetractAggregate,
}

/// One instruction to the presentation layer: append a freshly created unit
/// after all existing ones, or retract the single live aggregate unit.
pub enum RenderAction {
    Append(RenderUnit),
    RetractAggregate,
}

impl View for RenderAction {
    type V = RenderActionV;

    open spec fn view(&self) -> RenderActionV {
        match self {
            RenderAction::Append(u) => RenderActionV::Append(u@),
            RenderAction::RetractAggregate => RenderActionV::RetractAggregate,
        }
    }
}

impl DeepView for RenderAction {
    type V = RenderActionV;

    open spec fn deep_view(&self) -> RenderActionV {
        self.view()
    }
}

/// The individual unit created for path `p` when the snapshot is `snap`:
/// it exports the whole snapshot when everything is dragged together, and
/// only its own path otherwise.
pub open spec fn individual_unit(p: Seq<char>, drag_all: bool, snap: Seq<Seq<char>>) -> RenderUnitV {
    RenderUnitV::Individual { path: p, export: if drag_all { snap } else { seq![p] } }
}

/// The individual units created for `paths` under snapshot `snap`.
pub open spec fn individuals(paths: Seq<Seq<char>>, drag_all: bool, snap: Seq<Seq<char>>) -> Seq<
    RenderUnitV,
> {
    Seq::new(paths.len(), |i: int| individual_unit(paths[i], drag_all, snap))
}

/// The aggregate unit over the whole snapshot `snap`.
pub open spec fn aggregate_unit(snap: Seq<Seq<char>>) -> RenderUnitV {
    RenderUnitV::Aggregate { export: snap }
}

/// How many aggregate units a unit list holds.
pub open spec fn aggregate_count(units: Seq<RenderUnitV>) -> nat
    decreases units.len(),
{
    if units.len() == 0 {
        0
    } else {
        aggregate_count(units.drop_last()) + if units.last() is Aggregate {
            1nat
        } else {
            0nat
        }
    }
}

/// Well-formedness of an expanded-mode unit list against a snapshot: one
/// individual unit per staged path, in staging order, each exporting its own
/// path — or, when everything is dragged together, the snapshot as it stood
/// when the unit was created.
pub open spec fn expanded_wf(
    units: Seq<RenderUnitV>,
    snap: Seq<Seq<char>>,
    drag_all: bool,
) -> bool {
    &&& units.len() == snap.len()
    &&& forall|i: int|
        0 <= i < units.len() ==> (#[trigger] units[i] matches RenderUnitV::Individual {
            path,
            export,
        } && path == snap[i] && (if drag_all {
            exists|m: int| i < m <= snap.len() && export == snap.take(m)
        } else {
            export == seq![snap[i]]
        }))
}

/// Well-formedness of a compact-mode unit list against a snapshot: exactly
/// one aggregate unit over the full snapshot once anything is staged, and
/// no unit at all before the first successful addition.
pub open spec fn compact_wf(units: Seq<RenderUnitV>, present: bool, snap: Seq<Seq<char>>) -> bool {
    if present {
        units == seq![aggregate_unit(snap)] && snap.len() > 0
    } else {
        units.len() == 0 && snap.len() == 0
    }
}

/// Well-formedness of the policy state against a snapshot.
pub open spec fn render_wf(
    units: Seq<RenderUnitV>,
    present: bool,
    snap: Seq<Seq<char>>,
    mode: RenderMode,
    drag_all: bool,
) -> bool {
    match mode {
        RenderMode::Expanded => expanded_wf(units, snap, drag_all),
        RenderMode::Compact => compact_wf(units, present, snap),
    }
}

/// The compact-mode invariant: in any well-formed compact state with
/// anything staged at all, exactly one aggregate unit is present, and its
/// element count equals the current snapshot length.
pub proof fn lemma_compact_invariant(
    units: Seq<RenderUnitV>,
    present: bool,
    snap: Seq<Seq<char>>,
)
    requires
        compact_wf(units, present, snap),
        snap.len() > 0,
    ensures
        aggregate_count(units) == 1,
        units[0].export().len() == snap.len(),
{
    lemma_aggregate_count_single(aggregate_unit(snap));
}

/// A one-unit list holds one aggregate exactly when that unit is one.
proof fn lemma_aggregate_count_single(u: RenderUnitV)
    ensures
        aggregate_count(seq![u]) == if u is Aggregate {
            1nat
        } else {
            0nat
        },
{
    assert(seq![u].drop_last() =~= Seq::<RenderUnitV>::empty());
    assert(aggregate_count(Seq::<RenderUnitV>::empty()) == 0);
    assert(seq![u].last() == u);
}

/// The render policy: the model of the presentation layer's unit list,
/// together with the flag that says whether an aggregate unit is live.
pub struct RenderState {
    /// The units currently shown, in the order they were appended.
    pub units: Vec<RenderUnit>,
    /// Whether an aggregate unit is live (compact mode only).
    pub aggregate_present: bool,
}

impl RenderState {
    /// The state before anything has been rendered.
    pub fn new() -> (s: Self)
        ensures
            s.units.deep_view() == Seq::<RenderUnitV>::empty(),
            !s.aggregate_present,
    {
        let s = RenderState { units: Vec::new(), aggregate_present: false };
        proof {
            assert(s.units.deep_view() =~= Seq::<RenderUnitV>::empty());
        }
        s
    }

    /// First render of a freshly seeded snapshot: one individual unit per
    /// path in expanded mode; in compact mode one aggregate over the whole
    /// snapshot, or nothing when the snapshot is empty.
    pub fn initial_render(
        &mut self,
        snapshot: &Vec<String>,
        mode: RenderMode,
        drag_all: bool,
    ) -> (acts: Vec<RenderAction>)
        requires
            old(self).units.deep_view().len() == 0,
            !old(self).aggregate_present,
        ensures
            render_wf(
                final(self).units.deep_view(),
                final(self).aggregate_present,
                snapshot.deep_view(),
                mode,
                drag_all,
            ),
            mode is Expanded ==> final(self).units.deep_view() == individuals(
                snapshot.deep_view(),
                drag_all,
                snapshot.deep_view(),
            ),
            mode is Compact ==> final(self).units.deep_view() == if snapshot.deep_view().len()
                > 0 {
                seq![aggregate_unit(snapshot.deep_view())]
            } else {
                Seq::<RenderUnitV>::empty()
            },
            acts.deep_view() == final(self).units.deep_view().map_values(
                |u: RenderUnitV| RenderActionV::Append(u),
            ),
    {
        let ghost dv: Seq<Seq<char>> = snapshot.deep_view();
        proof {
            assert(dv.skip(0) =~= dv);
            assert(dv.take(0) =~= Seq::<Seq<char>>::empty());
        }
        let acts = self.on_growth(snapshot, snapshot, mode, drag_all);
        proof {
            match mode {
                RenderMode::Expanded => {
                    assert(self.units.deep_view() =~= individuals(dv, drag_all, dv));
                    assert(acts.deep_view() =~= self.units.deep_view().map_values(
                        |u: RenderUnitV| RenderActionV::Append(u),
                    ));
                },
                RenderMode::Compact => {
                    assert(acts.deep_view() =~= self.units.deep_view().map_values(
                        |u: RenderUnitV| RenderActionV::Append(u),
                    ));
                },
            }
        }
        acts
    }

    /// Apply one growth of the staged set: `new_snapshot` is the full set
    /// after the growth and `delta` the paths just appended. In expanded
    /// mode the policy appends one individual unit per added path and never
    /// touches an existing unit; in compact mode it retracts the live
    /// aggregate, if any, and appends a fresh aggregate over the full new
    /// snapshot. The returned script tells the presentation layer what to
    /// do, in order.
    ///
    /// Afterwards, in compact mode, exactly one aggregate unit is present
    /// (none when nothing is staged yet) and its element count equals the
    /// snapshot length; in expanded mode the number of individual units
    /// equals the snapshot length and every previously shown unit is
    /// unchanged, in place.
    pub fn on_growth(
        &mut self,
        new_snapshot: &Vec<String>,
        delta: &Vec<String>,
        mode: RenderMode,
        drag_all: bool,
    ) -> (acts: Vec<RenderAction>)
        requires
            delta@.len() <= new_snapshot@.len(),
            delta.deep_view() == new_snapshot.deep_view().skip(
                new_snapshot@.len() - delta@.len(),
            ),
            render_wf(
                old(self).units.deep_view(),
                old(self).aggregate_present,
                new_snapshot.deep_view().take(new_snapshot@.len() - delta@.len()),
                mode,
                drag_all,
            ),
        ensures
            render_wf(
                final(self).units.deep_view(),
                final(self).aggregate_present,
                new_snapshot.deep_view(),
                mode,
                drag_all,
            ),
            mode is Expanded ==> final(self).units.deep_view() == old(self).units.deep_view()
                + individuals(delta.deep_view(), drag_all, new_snapshot.deep_view()),
            mode is Expanded ==> final(self).units.deep_view().len()
                == new_snapshot.deep_view().len() && (forall|i: int|
                0 <= i < old(self).units.deep_view().len() ==> final(self).units.deep_view()[i]
                    == #[trigger] old(self).units.deep_view()[i]),
            mode is Compact ==> final(self).units.deep_view() == (if new_snapshot.deep_view().len()
                > 0 {
                seq![aggregate_unit(new_snapshot.deep_view())]
            } else {
                Seq::<RenderUnitV>::empty()
            }),
            mode is Compact ==> aggregate_count(final(self).units.deep_view()) == (
            if new_snapshot.deep_view().len() > 0 {
                1nat
            } else {
                0nat
            }),
            mode is Expanded ==> acts.deep_view() == individuals(
                delta.deep_view(),
                drag_all,
                new_snapshot.deep_view(),
            ).map_values(|u: RenderUnitV| RenderActionV::Append(u)),
            mode is Compact ==> acts.deep_view() == (if delta@.len() == 0 {
                Seq::<RenderActionV>::empty()
            } else {
                render_script(
                    old(self).aggregate_present,
                    seq![aggregate_unit(new_snapshot.deep_view())],
                    mode,
                )
            }),
    {
        let ghost new_dv: Seq<Seq<char>> = new_snapshot.deep_view();
        let ghost delta_dv: Seq<Seq<char>> = delta.deep_view();
        let ghost prev: Seq<Seq<char>> = new_dv.take(new_snapshot@.len() - delta@.len());
        match mode {
            RenderMode::Expanded => {
                let ghost base: Seq<RenderUnitV> = self.units.deep_view();
                let mut acts: Vec<RenderAction> = Vec::new();
                let n = delta.len();
                proof {
                    assert(self.units.deep_view() =~= base + individuals(
                        delta_dv.take(0),
                        drag_all,
                        new_dv,
                    ));
                    assert(acts.deep_view() =~= individuals(
                        delta_dv.take(0),
                        drag_all,
                        new_dv,
                    ).map_values(|u: RenderUnitV| RenderActionV::Append(u)));
                }
                for i in 0..n
                    invariant
                        n == delta@.len(),
                        delta_dv == delta.deep_view(),
                        new_dv == new_snapshot.deep_view(),
                        self.units.deep_view() == base + individuals(
                            delta_dv.take(i as int),
                            drag_all,
                            new_dv,
                        ),
                        acts.deep_view() == individuals(
                            delta_dv.take(i as int),
                            drag_all,
                            new_dv,
                        ).map_values(|u: RenderUnitV| RenderActionV::Append(u)),
                        self.aggregate_present == old(self).aggregate_present,
                {
                    let path = vec_string_get(delta, i);
                    let export: Vec<String> = if drag_all {
                        clone_paths(new_snapshot)
                    } else {
                        let mut one: Vec<String> = Vec::new();
                        one.push(vec_string_get(delta, i));
                        proof {
                            assert(one.deep_view() =~= seq![delta_dv[i as int]]);
                        }
                        one
                    };
                    let unit = RenderUnit::Individual { path, export };
                    proof {
                        assert(unit@ == individual_unit(delta_dv[i as int], drag_all, new_dv));
                    }
                    let echo = unit.clone_unit();
                    let ghost units_before: Seq<RenderUnitV> = self.units.deep_view();
                    let ghost acts_before: Seq<RenderActionV> = acts.deep_view();
                    self.units.push(unit);
                    acts.push(RenderAction::Append(echo));
                    proof {
                        assert(self.units.deep_view() =~= units_before.push(
                            individual_unit(delta_dv[i as int], drag_all, new_dv),
                        ));
                        assert(individuals(delta_dv.take(i as int + 1), drag_all, new_dv)
                            =~= individuals(delta_dv.take(i as int), drag_all, new_dv).push(
                            individual_unit(delta_dv[i as int], drag_all, new_dv),
                        ));
                        assert(self.units.deep_view() =~= base + individuals(
                            delta_dv.take(i as int + 1),
                            drag_all,
                            new_dv,
                        ));
                        assert(acts.deep_view() =~= acts_before.push(
                            RenderActionV::Append(
                                individual_unit(delta_dv[i as int], drag_all, new_dv),
                            ),
                        ));
                        assert(acts.deep_view() =~= individuals(
                            delta_dv.take(i as int + 1),
                            drag_all,
                            new_dv,
                        ).map_values(|u: RenderUnitV| RenderActionV::Append(u)));
                    }
                }
                proof {
                    assert(delta_dv.take(n as int) =~= delta_dv);
                    assert(new_dv =~= prev + delta_dv);
                    lemma_expanded_growth_wf(base, prev, delta_dv, new_dv, drag_all);
                }
                acts
            },
            RenderMode::Compact => {
                if delta.len() == 0 {
                    let acts: Vec<RenderAction> = Vec::new();
                    proof {
                        assert(new_dv =~= prev);
                        assert(acts.deep_view() =~= Seq::<RenderActionV>::empty());
                        if self.aggregate_present {
                            lemma_aggregate_count_single(aggregate_unit(new_dv));
                            assert(self.units.deep_view() =~= seq![aggregate_unit(new_dv)]);
                        }
                    }
                    return acts;
                }
                let mut acts: Vec<RenderAction> = Vec::new();
                if self.aggregate_present {
                    self.units.clear();
                    acts.push(RenderAction::RetractAggregate);
                }
                let export = clone_paths(new_snapshot);
                let unit = RenderUnit::Aggregate { export };
                proof {
                    assert(unit@ == aggregate_unit(new_dv));
                }
                let echo = unit.clone_unit();
                self.units.push(unit);
                acts.push(RenderAction::Append(echo));
                self.aggregate_present = true;
                proof {
                    assert(new_dv.len() > 0);
                    assert(self.units.deep_view() =~= seq![aggregate_unit(new_dv)]);
                    lemma_aggregate_count_single(aggregate_unit(new_dv));
                    if old(self).aggregate_present {
                        assert(acts.deep_view() =~= seq![
                            RenderActionV::RetractAggregate,
                            RenderActionV::Append(aggregate_unit(new_dv)),
                        ]);
                    } else {
                        assert(acts.deep_view() =~= seq![
                            RenderActionV::Append(aggregate_unit(new_dv)),
                        ]);
                    }
                    assert(acts.deep_view() == render_script(
                        old(self).aggregate_present,
                        seq![aggregate_unit(new_dv)],
                        mode,
                    ));
                }
                acts
            },
        }
    }
}

/// The instruction list for showing `units` afresh: retract the live
/// aggregate first when one is present, then append each unit in order.
pub open spec fn render_script(
    had_aggregate: bool,
    units: Seq<RenderUnitV>,
    mode: RenderMode,
) -> Seq<RenderActionV> {
    let appends = units.map_values(|u: RenderUnitV| RenderActionV::Append(u));
    if had_aggregate && mode is Compact {
        seq![RenderActionV::RetractAggregate] + appends
    } else {
        appends
    }
}

/// Appending the individual units for `delta` to a well-formed expanded
/// unit list yields a list well-formed for the grown snapshot.
proof fn lemma_expanded_growth_wf(
    base: Seq<RenderUnitV>,
    prev: Seq<Seq<char>>,
    delta: Seq<Seq<char>>,
    new_snap: Seq<Seq<char>>,
    drag_all: bool,
)
    requires
        expanded_wf(base, prev, drag_all),
        new_snap == prev + delta,
        prev == new_snap.take(prev.len() as int),
    ensures
        expanded_wf(base + individuals(delta, drag_all, new_snap), new_snap, drag_all),
{
    let grown = base + individuals(delta, drag_all, new_snap);
    assert(grown.len() == new_snap.len());
    assert forall|i: int| 0 <= i < grown.len() implies (#[trigger] grown[i]
        matches RenderUnitV::Individual { path, export } && path == new_snap[i] && (if drag_all {
        exists|m: int| i < m <= new_snap.len() && export == new_snap.take(m)
    } else {
        export == seq![new_snap[i]]
    })) by {
        if i < base.len() {
            assert(grown[i] == base[i]);
            assert(base[i] matches RenderUnitV::Individual { path, export } && path == prev[i]
                && (if drag_all {
                exists|m: int| i < m <= prev.len() && export == prev.take(m)
            } else {
                export == seq![prev[i]]
            }));
            assert(new_snap[i] == prev[i]);
            match base[i] {
                RenderUnitV::Individual { path, export } => {
                    if drag_all {
                        let m = choose|m: int| i < m <= prev.len() && export == prev.take(m);
                        assert(prev.take(m) =~= new_snap.take(m));
                        assert(export == new_snap.take(m));
                        assert(exists|mm: int|
                            i < mm <= new_snap.len() && export == new_snap.take(mm));
                    } else {
                        assert(export == seq![new_snap[i]]);
                    }
                },
                RenderUnitV::Aggregate { .. } => {},
            }
        } else {
            let k = i - base.len();
            assert(grown[i] == individuals(delta, drag_all, new_snap)[k]);
            assert(grown[i] == individual_unit(delta[k], drag_all, new_snap));
            assert(new_snap[i] == delta[k]);
            if drag_all {
                let full = new_snap.len() as int;
                assert(new_snap.take(full) =~= new_snap);
                assert(exists|mm: int|
                    i < mm <= new_snap.len() && new_snap == new_snap.take(mm)) by {
                    assert(i < full <= new_snap.len() && new_snap == new_snap.take(full));
                }
            }
        }
    }
}

} // verus!
