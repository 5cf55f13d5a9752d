//! Chrono-Scheduler: lightweight predictive intent engine (Markov-style task forecasting).
use vstd::prelude::*;

verus! {

/// Maximum recent actions kept for prediction.
pub const HISTORY_CAPACITY: usize = 32;

/// The history after appending an action, keeping only the newest `HISTORY_CAPACITY` entries.
pub open spec fn recorded(history: Seq<u32>, action_id: u32) -> Seq<u32> {
    let grown = history.push(action_id);
    if grown.len() > HISTORY_CAPACITY {
        grown.subrange(grown.len() - HISTORY_CAPACITY, grown.len() as int)
    } else {
        grown
    }
}

/// First-order chain 1 -> 2 -> 3 -> 4, then the second-order workflow 10 -> 11 -> 12.
pub open spec fn predicted(history: Seq<u32>, latest: u32) -> Option<u32> {
    if latest == 1 {
        Some(2u32)
    } else if latest == 2 {
        Some(3u32)
    } else if latest == 3 {
        Some(4u32)
    } else if history.len() >= 2 && history[history.len() - 2] == 10 && latest == 11 {
        Some(12u32)
    } else {
        None
    }
}

/// Tracks user history to predict the next intent.
pub struct ChronoScheduler {
    history: Vec<u32>,
    /// Next action the kernel has pre-staged in the background.
    staged_action: Option<u32>,
}

impl ChronoScheduler {
    /// Recent actions, oldest first.
    pub closed spec fn history(&self) -> Seq<u32> {
        self.history@
    }

    /// The pre-staged intent, if any.
    pub closed spec fn staged(&self) -> Option<u32> {
        self.staged_action
    }

    /// The history never holds more than `HISTORY_CAPACITY` actions.
    pub closed spec fn wf(&self) -> bool {
        self.history@.len() <= HISTORY_CAPACITY
    }

    pub fn new() -> (scheduler: Self)
        ensures
            scheduler.wf(),
            scheduler.history() == Seq::<u32>::empty(),
            scheduler.staged() is None,
    {
        ChronoScheduler { history: Vec::new(), staged_action: None }
    }

    /// Records an action and predicts what the user will do next; a prediction is also
    /// pre-staged for `take_staged_intent`.
    pub fn record_and_predict(&mut self, action_id: u32) -> (prediction: Option<u32>)
        requires
            old(self).wf(),
        ensures
            final(self).wf(),
            final(self).history() == recorded(old(self).history(), action_id),
            prediction == predicted(final(self).history(), action_id),
            final(self).staged() == (if prediction is Some { prediction } else { old(self).staged() }),
    {
        self.history.push(action_id);
        let ghost grown = self.history@;
        if self.history.len() > HISTORY_CAPACITY {
            let overflow = self.history.len() - HISTORY_CAPACITY;
            let mut removed: usize = 0;
            while removed < overflow
                invariant
                    removed <= overflow,
                    overflow == grown.len() - HISTORY_CAPACITY,
                    self.staged_action == old(self).staged_action,
                    self.history@ == grown.subrange(removed as int, grown.len() as int),
                decreases overflow - removed,
            {
                self.history.remove(0);
                removed = removed + 1;
                assert(self.history@ =~= grown.subrange(removed as int, grown.len() as int));
            }
        }
        let predicted = predict_next_action(self.history.as_slice(), action_id);
        if let Some(next_action) = predicted {
            self.pre_stage_intent(next_action);
        }
        predicted
    }

    /// Pre-stages the predicted next task.
    fn pre_stage_intent(&mut self, action_id: u32)
        ensures
            final(self).history() == old(self).history(),
            final(self).staged() == Some(action_id),
    {
        self.staged_action = Some(action_id);
    }

    /// Returns and clears a previously staged predictive intent, if any.
    pub fn take_staged_intent(&mut self) -> (staged: Option<u32>)
        ensures
            staged == old(self).staged(),
            final(self).staged() is None,
            final(self).history() == old(self).history(),
            final(self).wf() == old(self).wf(),
    {
        self.staged_action.take()
    }
}

/// Simple first-order Markov-style transitions with one second-order workflow chain.
fn predict_next_action(history: &[u32], latest: u32) -> (prediction: Option<u32>)
    ensures
        prediction == predicted(history@, latest),
{
    if latest == 1 {
        return Some(2);
    }
    if latest == 2 {
        return Some(3);
    }
    if latest == 3 {
        return Some(4);
    }
    if history.len() >= 2 {
        let previous = history[history.len() - 2];
        if previous == 10 && latest == 11 {
            return Some(12);
        }
    }
    None
}

/// Records an action when temporal sequencing is enabled and returns the predicted next
/// action ID, if any.
pub fn record_and_predict_global(scheduler: &mut ChronoScheduler, action_id: u32) -> (prediction: Option<u32>)
    requires
        old(scheduler).wf(),
    ensures
        final(scheduler).wf(),
        !crate::kernel_config::master_config_spec().temporal_sequencing_enabled ==> prediction is None
            && *final(scheduler) == *old(scheduler),
        crate::kernel_config::master_config_spec().temporal_sequencing_enabled ==> {
            &&& final(scheduler).history() == recorded(old(scheduler).history(), action_id)
            &&& prediction == predicted(final(scheduler).history(), action_id)
            &&& final(scheduler).staged() == (if prediction is Some { prediction } else { old(scheduler).staged() })
        },
{
    if !crate::kernel_config::temporal_sequencing_enabled() {
        return None;
    }
    scheduler.record_and_predict(action_id)
}

/// Takes a pre-staged predictive intent from the scheduler.
pub fn take_staged_intent_global(scheduler: &mut ChronoScheduler) -> (staged: Option<u32>)
    ensures
        staged == old(scheduler).staged(),
        final(scheduler).staged() is None,
        final(scheduler).history() == old(scheduler).history(),
        final(scheduler).wf() == old(scheduler).wf(),
{
    scheduler.take_staged_intent()
}

/// Law: the recorded history never grows beyond `HISTORY_CAPACITY` and always ends with the
/// newest action.
pub proof fn law_history_bounded(history: Seq<u32>, action_id: u32)
    requires
        history.len() <= HISTORY_CAPACITY,
    ensures
        recorded(history, action_id).len() <= HISTORY_CAPACITY,
        recorded(history, action_id).last() == action_id,
        history.len() < HISTORY_CAPACITY ==> recorded(history, action_id) == history.push(action_id),
{
}

/// Law: the documented transition chain 1 -> 2 -> 3 -> 4 holds whatever came before.
pub proof fn law_first_order_chain(history: Seq<u32>)
    ensures
        predicted(history, 1) == Some(2u32),
        predicted(history, 2) == Some(3u32),
        predicted(history, 3) == Some(4u32),
        predicted(history, 4) is None,
{
}

/// Law: once 10 was recorded, recording 11 predicts 12.
pub proof fn law_workflow_chain(history: Seq<u32>)
    requires
        history.len() < HISTORY_CAPACITY,
    ensures
        predicted(recorded(recorded(history, 10), 11), 11) == Some(12u32),
{
    let h = recorded(recorded(history, 10), 11);
    assert(h[h.len() - 2] == 10);
}

/// Law: the scheduler predicts only the documented transitions: 1, 2 and 3 are followed by
/// the next action, 11 right after 10 by 12, and nothing else predicts anything.
pub proof fn law_only_documented_transitions(history: Seq<u32>, latest: u32)
    ensures
        predicted(history, latest) matches Some(next) ==> {
            ||| (1 <= latest <= 3 && next == latest + 1)
            ||| (latest == 11 && next == 12 && history.len() >= 2 && history[history.len() - 2] == 10)
        },
        !(1 <= latest <= 3 || latest == 11) ==> predicted(history, latest) is None,
        latest == 11 ==> (predicted(history, latest) is Some <==> (history.len() >= 2 && history[history.len() - 2] == 10)),
{
}

/// Law: recording an action without a documented transition predicts nothing, whatever the
/// history.
pub proof fn law_unpredicted_action_predicts_nothing(history: Seq<u32>, action_id: u32)
    requires
        !(1 <= action_id <= 3 || action_id == 11),
    ensures
        predicted(recorded(history, action_id), action_id) is None,
{
}

} // verus!
