//! Bencher-format metrics for a whole run, one metric group per phase.
use vstd::prelude::*;
use crate::reporter::bencher::{
    BencherLine, BencherReporter, Figure, in_namespace, is_throughput, lemma_only_platform_pacing_publishes_throughput,
    lemma_prefix_namespaces_every_stat, line_view, qualified, stats_lines,
};
use crate::schedule::Pacing;
use crate::run::{PhaseReport, RunReport};

verus! {

/// The lines a run publishes: each phase's metrics, namespaced by its label under the
/// prefix, in the order the phases were recorded.
pub open spec fn run_lines(prefix: Option<Seq<char>>, phases: Seq<PhaseReport>) -> Seq<(Seq<char>, Figure)>
    decreases phases.len(),
{
    if phases.len() == 0 {
        Seq::empty()
    } else {
        let phase = phases.last();
        run_lines(prefix, phases.drop_last()) + stats_lines(
            Some(qualified(prefix, phase.label@)),
            phase.latency,
            phase.pacing,
            phase.latency.count,
            phase.duration_nanos,
        )
    }
}

/// A run publishes its phases in order: recording one more phase adds, after the lines
/// already published, that phase's latency lines under its label, with throughput taken
/// over the latencies it counted and the time it ran.
pub proof fn lemma_a_phase_adds_its_own_lines(prefix: Option<Seq<char>>, phases: Seq<PhaseReport>, phase: PhaseReport)
    ensures
        run_lines(prefix, phases.push(phase)) == run_lines(prefix, phases) + stats_lines(
            Some(qualified(prefix, phase.label@)),
            phase.latency,
            phase.pacing,
            phase.latency.count,
            phase.duration_nanos,
        ),
{
    assert(phases.push(phase).drop_last() =~= phases);
}

/// Every line a run publishes belongs to one of its phases: it lies in that phase's
/// namespace, its label under the prefix, and it publishes throughput only when the
/// target paced that phase.
pub proof fn lemma_every_phase_is_namespaced(prefix: Option<Seq<char>>, phases: Seq<PhaseReport>)
    ensures
        forall|i: int| 0 <= i < run_lines(prefix, phases).len() ==> exists|k: int| 0 <= k < phases.len()
            && in_namespace(#[trigger] run_lines(prefix, phases)[i].0, qualified(prefix, phases[k].label@))
            && (is_throughput(run_lines(prefix, phases)[i]) ==> phases[k].pacing == Pacing::Platform),
    decreases phases.len(),
{
    if phases.len() > 0 {
        let rest = phases.drop_last();
        let phase = phases.last();
        let space = qualified(prefix, phase.label@);
        let before = run_lines(prefix, rest);
        let added = stats_lines(Some(space), phase.latency, phase.pacing, phase.latency.count, phase.duration_nanos);
        lemma_every_phase_is_namespaced(prefix, rest);
        lemma_prefix_namespaces_every_stat(space, phase.latency, phase.pacing, phase.latency.count, phase.duration_nanos);
        lemma_only_platform_pacing_publishes_throughput(Some(space), phase.latency, phase.pacing, phase.latency.count, phase.duration_nanos);
        assert(run_lines(prefix, phases) == before + added);
        assert forall|i: int| 0 <= i < run_lines(prefix, phases).len() implies exists|k: int| 0 <= k < phases.len()
            && in_namespace(#[trigger] run_lines(prefix, phases)[i].0, qualified(prefix, phases[k].label@))
            && (is_throughput(run_lines(prefix, phases)[i]) ==> phases[k].pacing == Pacing::Platform) by {
            if i < before.len() {
                assert(run_lines(prefix, phases)[i] == before[i]);
                let k = choose|k: int| 0 <= k < rest.len()
                    && in_namespace(#[trigger] before[i].0, qualified(prefix, rest[k].label@))
                    && (is_throughput(before[i]) ==> rest[k].pacing == Pacing::Platform);
                assert(phases[k] == rest[k]);
            } else {
                let j = i - before.len();
                assert(run_lines(prefix, phases)[i] == added[j]);
                assert(in_namespace(added[j].0, space));
                assert(phases[phases.len() - 1] == phase);
                if is_throughput(added[j]) {
                    assert(phase.pacing == Pacing::Platform);
                }
            }
        }
    }
}

/// Writes a run as one JSON document: the run's metadata and every phase, in order.
#[derive(Debug, Default, Clone, Copy)]
pub struct JsonRunReporter;

/// Publishes a run as bencher-format metrics, one group per phase.
///
/// Each phase's metrics are namespaced by its label, so several phases of one run land in
/// one history without colliding: `<prefix>/<label>/latency/p99`. The pacing guard applies
/// per phase, and a phase that recorded no latency contributes no lines.
#[derive(Debug)]
pub struct BencherRunReporter {
    prefix: Option<String>,
}

impl Clone for BencherRunReporter {
    fn clone(&self) -> (r: BencherRunReporter)
        ensures
            r.prefix_of() == self.prefix_of(),
    {
        let prefix = match &self.prefix {
            Some(p) => Some(p.clone()),
            None => None,
        };
        BencherRunReporter { prefix }
    }
}

impl Default for BencherRunReporter {
    fn default() -> (r: BencherRunReporter)
        ensures
            r.prefix_of() is None,
    {
        BencherRunReporter { prefix: None }
    }
}

impl BencherRunReporter {
    /// The prefix every phase is namespaced with, if any.
    pub closed spec fn prefix_of(&self) -> Option<Seq<char>> {
        match self.prefix {
            Some(p) => Some(p@),
            None => None,
        }
    }

    /// Create a reporter, optionally namespacing every phase with `prefix/`.
    pub fn new(prefix: Option<String>) -> (r: BencherRunReporter)
        ensures
            r.prefix_of() == match prefix {
                Some(p) => Some(p@),
                None => None::<Seq<char>>,
            },
    {
        BencherRunReporter { prefix }
    }

    /// The lines `run` publishes.
    pub fn lines<M>(&self, run: &RunReport<M>) -> (lines: Vec<BencherLine>)
        ensures
            lines@.map_values(|l: BencherLine| line_view(l)) == run_lines(self.prefix_of(), run.phases@),
    {
        let mut lines: Vec<BencherLine> = Vec::new();
        let mut i: usize = 0;
        assert(run.phases@.take(0) =~= Seq::<PhaseReport>::empty());
        assert(lines@.map_values(|l: BencherLine| line_view(l)) =~= Seq::<(Seq<char>, Figure)>::empty());
        while i < run.phases.len()
            invariant
                i <= run.phases@.len(),
                lines@.map_values(|l: BencherLine| line_view(l)) == run_lines(self.prefix_of(), run.phases@.take(i as int)),
            decreases run.phases@.len() - i,
        {
            let phase = &run.phases[i];
            let name = self.phase_name(&phase.label);
            let reporter = BencherReporter::new(Some(name));
            let mut more = reporter.stats_lines(&phase.latency, phase.pacing, phase.latency.count, phase.duration_nanos);
            let ghost before = lines@;
            let ghost added = more@;
            lines.append(&mut more);
            proof {
                assert(run.phases@.take(i + 1).drop_last() =~= run.phases@.take(i as int));
                assert(run.phases@.take(i + 1).last() == *phase);
                assert(lines@ =~= before + added);
                assert(lines@.map_values(|l: BencherLine| line_view(l)) =~= before.map_values(|l: BencherLine| line_view(l))
                    + added.map_values(|l: BencherLine| line_view(l)));
            }
            i = i + 1;
        }
        assert(run.phases@.take(run.phases@.len() as int) =~= run.phases@);
        lines
    }

    /// A phase's namespace: its label under the prefix.
    fn phase_name(&self, label: &String) -> (s: String)
        ensures
            s@ == qualified(self.prefix_of(), label@),
    {
        match &self.prefix {
            Some(prefix) => {
                let mut s = prefix.clone();
                proof {
                    reveal_strlit("/");
                }
                s.append("/");
                s.append(label.as_str());
                assert(s@ =~= prefix@ + seq!['/'] + label@);
                s
            },
            None => label.clone(),
        }
    }
}

} // verus!
