//! The ingestion pipeline's consumer side and the per-producer decisions.
//!
//! Three producers — the argument list, a standard-input reader, and the
//! drop-event receiver — push path messages onto one ordered channel. The
//! single consumer owns the staged set and the render state; for each
//! message it stages the delivered paths and immediately asks the render
//! policy for the matching presentation update, so the presentation layer
//! never observes a mutation without its render update. The channel and the
//! threads live outside the library; what is verified here is what each
//! message does to the state.

use vstd::prelude::*;

use crate::codec::{decode, decode_spec, payload_lines, std_lines};
use crate::render::{
    aggregate_unit, individuals, render_script, render_wf, RenderAction, RenderActionV,
    RenderMode, RenderState, RenderUnitV,
};
use crate::staging::{clone_paths, PathStagingSet};

verus! {

/// One message on the delivery channel.
pub enum Message {
    /// The argument-supplied initial batch.
    ArgPaths(Vec<String>),
    /// One path read from standard input.
    StdinPath(String),
    /// The batch decoded from one completed external drop.
    DropPaths(Vec<String>),
}

/// The paths a message delivers, in delivery order.
pub open spec fn message_paths(m: Message) -> Seq<Seq<char>> {
    match m {
        Message::ArgPaths(batch) => batch.deep_view(),
        Message::StdinPath(path) => seq![path@],
        Message::DropPaths(batch) => batch.deep_view(),
    }
}

/// The consumer's state: the staged set, the render policy state, and the
/// two configuration flags that the policy depends on.
pub struct Session {
    /// The single source of truth for what is staged.
    pub staged: PathStagingSet,
    /// The model of the presentation layer's unit list.
    pub render: RenderState,
    /// The render mode, fixed at startup.
    pub mode: RenderMode,
    /// Whether every individual unit exports the whole snapshot.
    pub drag_all: bool,
}

impl Session {
    /// The render state always reflects the staged set.
    pub open spec fn wf(self) -> bool {
        render_wf(
            self.render.units.deep_view(),
            self.render.aggregate_present,
            self.staged@,
            self.mode,
            self.drag_all,
        )
    }

    /// A fresh consumer: nothing staged, nothing rendered.
    pub fn new(mode: RenderMode, drag_all: bool) -> (s: Self)
        ensures
            s.wf(),
            s.staged@ == Seq::<Seq<char>>::empty(),
            s.render.units.deep_view() == Seq::<RenderUnitV>::empty(),
            !s.render.aggregate_present,
            s.mode == mode,
            s.drag_all == drag_all,
    {
        Session { staged: PathStagingSet::new(), render: RenderState::new(), mode, drag_all }
    }

    /// The units currently shown, in the order they were appended.
    pub fn units(&self) -> (r: &Vec<crate::render::RenderUnit>)
        ensures
            r.deep_view() == self.render.units.deep_view(),
    {
        &self.render.units
    }

    /// Stage a batch and render the growth: the one step the consumer takes
    /// for every dequeued message.
    fn grow_with(&mut self, batch: Vec<String>) -> (acts: Vec<RenderAction>)
        requires
            old(self).wf(),
        ensures
            final(self).wf(),
            final(self).staged@ == old(self).staged@ + batch.deep_view(),
            final(self).mode == old(self).mode,
            final(self).drag_all == old(self).drag_all,
            old(self).mode is Expanded ==> final(self).render.units.deep_view() == old(
                self,
            ).render.units.deep_view() + individuals(
                batch.deep_view(),
                old(self).drag_all,
                old(self).staged@ + batch.deep_view(),
            ),
            old(self).mode is Compact ==> final(self).render.units.deep_view() == (if old(
                self,
            ).staged@.len() + batch.deep_view().len() > 0 {
                seq![aggregate_unit(old(self).staged@ + batch.deep_view())]
            } else {
                Seq::<RenderUnitV>::empty()
            }),
            old(self).mode is Expanded ==> acts.deep_view() == individuals(
                batch.deep_view(),
                old(self).drag_all,
                old(self).staged@ + batch.deep_view(),
            ).map_values(|u: RenderUnitV| RenderActionV::Append(u)),
            old(self).mode is Compact ==> acts.deep_view() == (if batch.deep_view().len()
                == 0 {
                Seq::<RenderActionV>::empty()
            } else {
                render_script(
                    old(self).render.aggregate_present,
                    seq![aggregate_unit(old(self).staged@ + batch.deep_view())],
                    old(self).mode,
                )
            }),
    {
        let ghost prior: Seq<Seq<char>> = self.staged@;
        let delta = clone_paths(&batch);
        self.staged.append_many(batch);
        let snap = self.staged.snapshot();
        proof {
            let new_dv = snap.deep_view();
            assert(new_dv == prior + delta.deep_view());
            assert(delta.deep_view() =~= new_dv.skip(
                new_dv.len() as int - delta.deep_view().len() as int,
            ));
            assert(new_dv.take(new_dv.len() as int - delta.deep_view().len() as int)
                =~= prior);
            assert(snap@.len() == new_dv.len());
            assert(delta@.len() == delta.deep_view().len());
        }
        self.render.on_growth(&snap, &delta, self.mode, self.drag_all)
    }

    /// Stage the argument-supplied paths, before any other producer runs,
    /// and render them: one individual unit per path in expanded mode, one
    /// aggregate over the whole batch in compact mode, and no unit at all
    /// when the batch is empty.
    pub fn seed(&mut self, initial: Vec<String>) -> (acts: Vec<RenderAction>)
        requires
            old(self).wf(),
            old(self).staged@.len() == 0,
        ensures
            final(self).wf(),
            final(self).staged@ == initial.deep_view(),
            final(self).mode == old(self).mode,
            final(self).drag_all == old(self).drag_all,
            old(self).mode is Expanded ==> final(self).render.units.deep_view() == individuals(
                initial.deep_view(),
                old(self).drag_all,
                initial.deep_view(),
            ),
            old(self).mode is Compact ==> final(self).render.units.deep_view() == (
            if initial.deep_view().len() > 0 {
                seq![aggregate_unit(initial.deep_view())]
            } else {
                Seq::<RenderUnitV>::empty()
            }),
    {
        let ghost dv: Seq<Seq<char>> = initial.deep_view();
        let acts = self.grow_with(initial);
        proof {
            assert(old(self).staged@ + dv =~= dv);
            if old(self).mode is Expanded {
                assert(old(self).render.units.deep_view().len() == 0);
                assert(old(self).render.units.deep_view() + individuals(
                    dv,
                    old(self).drag_all,
                    dv,
                ) =~= individuals(dv, old(self).drag_all, dv));
            }
        }
        acts
    }

    /// Apply one dequeued message: stage every path it delivers, in order,
    /// then render the growth. The staged set only ever grows, and the
    /// returned script keeps the presentation layer in step with it.
    pub fn handle_message(&mut self, msg: Message) -> (acts: Vec<RenderAction>)
        requires
            old(self).wf(),
        ensures
            final(self).wf(),
            final(self).staged@ == old(self).staged@ + message_paths(msg),
            final(self).mode == old(self).mode,
            final(self).drag_all == old(self).drag_all,
            old(self).mode is Expanded ==> final(self).render.units.deep_view() == old(
                self,
            ).render.units.deep_view() + individuals(
                message_paths(msg),
                old(self).drag_all,
                old(self).staged@ + message_paths(msg),
            ),
            old(self).mode is Compact ==> final(self).render.units.deep_view() == (if old(
                self,
            ).staged@.len() + message_paths(msg).len() > 0 {
                seq![aggregate_unit(old(self).staged@ + message_paths(msg))]
            } else {
                Seq::<RenderUnitV>::empty()
            }),
    {
        match msg {
            Message::ArgPaths(batch) => self.grow_with(batch),
            Message::DropPaths(batch) => self.grow_with(batch),
            Message::StdinPath(path) => {
                let ghost pv: Seq<char> = path@;
                let mut one: Vec<String> = Vec::new();
                one.push(path);
                proof {
                    assert(one.deep_view() =~= seq![pv]);
                }
                self.grow_with(one)
            },
        }
    }
}

/// The notice printed when a standard-input path is staged.
pub open spec fn adding_notice(path: Seq<char>) -> Seq<char> {
    "Adding: "@ + path
}

/// The diagnostic for a standard-input line naming no existing file.
pub open spec fn missing_note(path: Seq<char>) -> Seq<char> {
    path + " : no such file or directory"@
}

/// What the standard-input producer does with one line.
pub enum StdinStep {
    /// Stage the path through the channel and print the notice.
    Enqueue { path: String, notice: String },
    /// Print the diagnostic and drop the line.
    Diagnostic(String),
    /// Drop the line silently.
    Skip,
}

/// Decide what one standard-input line becomes. `exists` says whether the
/// named path exists on the filesystem — the one fact the caller must look
/// up. An existing path is staged and announced; a missing one produces a
/// diagnostic only in verbose mode and is otherwise dropped silently.
pub fn stdin_line_step(line: String, exists: bool, verbose: bool) -> (r: StdinStep)
    ensures
        exists ==> (r matches StdinStep::Enqueue { path, notice } && path@ == line@ && notice@
            == adding_notice(line@)),
        !exists && verbose ==> (r matches StdinStep::Diagnostic(d) && d@ == missing_note(
            line@,
        )),
        !exists && !verbose ==> r is Skip,
{
    if exists {
        proof {
            reveal_strlit("Adding: ");
        }
        let mut notice = String::from_str("Adding: ");
        notice.append(line.as_str());
        StdinStep::Enqueue { path: line, notice }
    } else if verbose {
        proof {
            reveal_strlit(" : no such file or directory");
        }
        let mut d = line;
        d.append(" : no such file or directory");
        StdinStep::Diagnostic(d)
    } else {
        StdinStep::Skip
    }
}

/// What one completed external drop asks the process to do.
pub struct DropOutcome {
    /// The lines for standard output, in order: the payload's lines
    /// verbatim, or the resolved paths when printing resolved paths.
    pub stdout_lines: Vec<String>,
    /// The decoded batch to stage, present exactly when dropped paths are
    /// kept.
    pub staged_batch: Option<Vec<String>>,
}

/// Process one dropped payload. Without `print_path` every payload line
/// goes to standard output verbatim; with it only the lines that resolve to
/// local paths are printed, as those paths, in line order. With `keep` the
/// decoded batch is handed back for staging.
pub fn process_drop(payload: &str, print_path: bool, keep: bool) -> (r: DropOutcome)
    ensures
        !print_path ==> r.stdout_lines.deep_view() == std_lines(payload@),
        print_path ==> r.stdout_lines.deep_view() == decode_spec(payload@),
        keep ==> (r.staged_batch matches Some(b) && b.deep_view() == decode_spec(payload@)),
        !keep ==> r.staged_batch is None,
{
    let stdout_lines = if print_path {
        decode(payload)
    } else {
        payload_lines(payload)
    };
    let staged_batch = if keep {
        Some(decode(payload))
    } else {
        None
    };
    DropOutcome { stdout_lines, staged_batch }
}

/// How a drag-and-drop gesture ended.
pub enum Interaction {
    /// A drag out of this process completed and the payload was taken.
    ExportCompleted,
    /// A drop into this process completed, whatever its payload decoded to.
    ImportCompleted,
    /// The gesture ended without completing.
    Aborted,
}

/// The one-shot process-lifetime policy: when exit-on-interaction is
/// enabled, any completed export or import terminates the process, and a
/// gesture that never completed terminates nothing.
pub fn should_exit(and_exit: bool, outcome: Interaction) -> (r: bool)
    ensures
        r == (and_exit && !(outcome is Aborted)),
{
    match outcome {
        Interaction::Aborted => false,
        Interaction::ExportCompleted => and_exit,
        Interaction::ImportCompleted => and_exit,
    }
}

} // verus!
