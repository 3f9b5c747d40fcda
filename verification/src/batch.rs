//! A batch of downloads: each job comes to its own outcome, and the failure
//! of one is the failure of no other.

use crate::config::Mode;
use crate::job::{
    failed, is_success, lemma_bad_status_ends_the_job, lemma_good_run_succeeds,
    lemma_run_prefix, plain, success, ActionModel, Input, JobEvent, JobModel,
};
use crate::report::{count_failures, lemma_single_failure, FailureKind, OutcomeModel};
use vstd::prelude::*;

verus! {

/// One job of a batch: its key, its mode and all that it was told.
pub ghost struct JobRun {
    pub key: Seq<char>,
    pub mode: Mode,
    pub inputs: Seq<Input>,
}

impl JobRun {
    /// What the job asked of its caller, step by step.
    pub open spec fn actions(self) -> Seq<ActionModel> {
        JobModel::fresh(self.key, self.mode).actions(self.inputs)
    }

    /// The job was answered with a status that does not tell of success, and
    /// was told nothing after that.
    pub open spec fn refused(self, status: u16) -> bool {
        &&& self.inputs.len() == 2
        &&& self.inputs[0].event == JobEvent::Start
        &&& self.inputs[1].event == (JobEvent::Response { status })
        &&& !is_success(status)
    }

    /// The job came to its outcome, and nothing went wrong on its way.
    pub open spec fn went_well(self) -> bool {
        &&& self.inputs.len() > 0
        &&& JobModel::fresh(self.key, self.mode).all_fit(self.inputs)
        &&& JobModel::fresh(self.key, self.mode).all_go_well(self.inputs)
        &&& self.actions().last() is Finish
    }

    /// The outcome that the job gave with its last step.
    pub open spec fn outcome(self) -> OutcomeModel {
        match self.actions().last() {
            ActionModel::Finish { outcome } => outcome,
            _ => OutcomeModel { key: self.key, failure: None },
        }
    }
}

/// The outcomes of the jobs of a batch.
pub open spec fn outcomes_of(runs: Seq<JobRun>) -> Seq<OutcomeModel> {
    Seq::new(runs.len(), |i: int| runs[i].outcome())
}

/// Isolation: in a batch in which one job is answered with a status that
/// does not tell of success and nothing goes wrong for any other job, that
/// one job fails with its key and its status, and every other job succeeds
/// with its own key and with the whole body in the file of its archive: one
/// failure and all the other jobs successes, however many jobs there are.
pub proof fn lemma_isolation(runs: Seq<JobRun>, f: int, status: u16)
    requires
        0 <= f < runs.len(),
        runs[f].refused(status),
        forall|i: int| 0 <= i < runs.len() && i != f ==> (#[trigger] runs[i]).went_well(),
    ensures
        runs[f].actions().last() == failed(
            runs[f].key,
            plain(FailureKind::BadResponse { status }),
        ),
        forall|i: int|
            0 <= i < runs.len() && i != f ==> (#[trigger] runs[i]).actions().last() == success(
                runs[i].key,
            ) && JobModel::fresh(runs[i].key, runs[i].mode).run(runs[i].inputs).whole(),
        count_failures(outcomes_of(runs)) == 1,
        outcomes_of(runs).len() - count_failures(outcomes_of(runs)) == runs.len() - 1,
{
    lemma_bad_status_ends_the_job(runs[f].key, runs[f].mode, runs[f].inputs, status);
    lemma_run_prefix(JobModel::fresh(runs[f].key, runs[f].mode), runs[f].inputs, 0);
    assert(runs[f].actions().last() == runs[f].actions()[1]);
    assert forall|i: int| 0 <= i < runs.len() && i != f implies (#[trigger] runs[i]).actions().last()
        == success(runs[i].key) && JobModel::fresh(runs[i].key, runs[i].mode).run(
        runs[i].inputs,
    ).whole() by {
        lemma_good_run_succeeds(runs[i].key, runs[i].mode, runs[i].inputs);
    }
    let outcomes = outcomes_of(runs);
    assert(outcomes[f].failure is Some);
    assert forall|i: int| 0 <= i < outcomes.len() && i != f implies (#[trigger] outcomes[i]).failure
        is None by {
        assert(runs[i].went_well());
    }
    lemma_single_failure(outcomes, f);
}

} // verus!
