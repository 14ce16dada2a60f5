//! One game poll: the view model built from the latest readings, with the challenge tracker fed
//! when gameplay is stable. The host runs the polling loop and writes the tracker's state.

use vstd::prelude::*;
use crate::boss_table::BossTableData;
use crate::checks_table::{ChecksFlagsData, ChecksTableData};
use crate::lot_flags::LotFlagsData;
use crate::challenge::{
    configure_model, snapshot_of, update_result, ChallengeConfig, ChallengeSnapshot,
    ChallengeTracker, PbDirection, TrackerModel,
};
use crate::config::BossPanelScope;
use crate::metrics::{metric_of, resolve_metric, MetricValue};
use crate::tables::{GameStateSource, GoodsTable};
use crate::checks_panel::check_counts_fit;
use crate::view_model::{boss_counts_fit, build_view_model, built_view_model, OverlayViewModel};

verus! {

/// What a poll needs from the configuration and the layout.
pub struct PollInputs {
    pub data_refs: Vec<String>,
    pub equipped_refs: Vec<String>,
    pub historic_refs: Vec<String>,
    pub boss_panel_scope: BossPanelScope,
    pub checks_panel_scope: BossPanelScope,
    pub challenge_config: ChallengeConfig,
    pub pb_source: String,
    pub pb_mode: PbDirection,
    pub start_flag: u32,
}

/// A metric as a plain count: a counter's current value or the NG+ cycle; nothing for a time
/// or an unavailable metric.
pub open spec fn count_of(v: MetricValue) -> Option<u32> {
    match v {
        MetricValue::Count { current, .. } => current,
        MetricValue::NgCycle(n) => n,
        _ => None,
    }
}

pub fn resolve_metric_count(metric: &str, vm: &OverlayViewModel) -> (r: Option<u32>)
    requires
        vm.wf(),
    ensures
        r == count_of(metric_of(metric@, *vm)),
{
    match resolve_metric(metric, vm) {
        MetricValue::Count { current, .. } => current,
        MetricValue::NgCycle(n) => n,
        _ => None,
    }
}

/// The tracker after a poll that fed it, and the snapshot it reported.
pub open spec fn fed_tracker(
    m: TrackerModel,
    inputs: &PollInputs,
    vm: OverlayViewModel,
    start_flag: Option<bool>,
) -> (TrackerModel, ChallengeSnapshot) {
    let m1 = configure_model(
        m,
        inputs.pb_source@,
        inputs.pb_mode,
        inputs.challenge_config.budget_metric@,
        inputs.challenge_config.budget_max,
    );
    let budget = count_of(metric_of(inputs.challenge_config.budget_metric@, vm));
    let pb = count_of(metric_of(inputs.pb_source@, vm));
    (
        crate::challenge::update_model(m1, budget, pb, start_flag),
        update_result(m1, budget, pb, start_flag),
    )
}

/// Builds the view model of one poll. When the challenge is enabled and gameplay is stable
/// (`update_ready`), the tracker adopts the PB and budget settings and is fed the budget and PB
/// metrics (read from the new view model) and the start flag; otherwise it only reports.
pub fn build_poll_view_model<S: GameStateSource>(
    source: &S,
    goods: &GoodsTable,
    bosses: &BossTableData,
    checks: &ChecksTableData,
    checks_seed: Option<&ChecksFlagsData>,
    lot_seed: Option<&LotFlagsData>,
    inputs: &PollInputs,
    challenge: &mut ChallengeTracker,
    update_ready: bool,
) -> (vm: OverlayViewModel)
    requires
        goods.groups.wf(),
        boss_counts_fit(bosses),
        check_counts_fit(checks),
        match lot_seed {
            Some(d) => d.wf(),
            None => true,
        },
    ensures
        built_view_model(
            source,
            vm,
            *goods,
            *bosses,
            checks,
            checks_seed,
            lot_seed,
            inputs.data_refs@,
            inputs.equipped_refs@,
            inputs.historic_refs@,
            inputs.boss_panel_scope,
            inputs.checks_panel_scope,
        ),
        !(inputs.challenge_config.enabled && update_ready) ==> {
            &&& final(challenge)@ == old(challenge)@
            &&& vm.challenge == snapshot_of(old(challenge)@)
        },
        (inputs.challenge_config.enabled && update_ready) ==> exists|flag: Option<bool>|
            source.flag_read(inputs.start_flag, flag) && (final(challenge)@, vm.challenge) == fed_tracker(
                old(challenge)@,
                inputs,
                vm,
                flag,
            ),
{
    let mut vm = build_view_model(
        source,
        goods,
        bosses,
        checks,
        checks_seed,
        lot_seed,
        &inputs.data_refs,
        &inputs.equipped_refs,
        &inputs.historic_refs,
        inputs.boss_panel_scope,
        inputs.checks_panel_scope,
        ChallengeSnapshot::empty(),
    );
    let ghost before = challenge@;
    let ghost mut witness: Option<bool> = None;
    let snapshot = if inputs.challenge_config.enabled && update_ready {
        challenge.configure(
            inputs.pb_source.as_str(),
            inputs.pb_mode,
            inputs.challenge_config.budget_metric.as_str(),
            inputs.challenge_config.budget_max,
        );
        let budget_value = resolve_metric_count(inputs.challenge_config.budget_metric.as_str(), &vm);
        let pb_value = resolve_metric_count(inputs.pb_source.as_str(), &vm);
        let flag = source.get_flag(inputs.start_flag);
        let s = challenge.update(budget_value, pb_value, flag);
        proof {
            witness = flag;
            let ghost vm2 = OverlayViewModel { challenge: s, ..vm };
            assert(metric_of(inputs.challenge_config.budget_metric@, vm2) == metric_of(
                inputs.challenge_config.budget_metric@,
                vm,
            ));
            assert(metric_of(inputs.pb_source@, vm2) == metric_of(inputs.pb_source@, vm));
        }
        s
    } else {
        challenge.snapshot()
    };
    vm.challenge = snapshot;
    proof {
        if inputs.challenge_config.enabled && update_ready {
            assert(source.flag_read(inputs.start_flag, witness));
            assert((challenge@, vm.challenge) == fed_tracker(before, inputs, vm, witness));
        }
    }
    vm
}

} // verus!
