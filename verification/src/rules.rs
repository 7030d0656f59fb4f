//! The rules engine: recursive rule evaluation over a state snapshot,
//! edge-triggered matching of routines across a state transition, and
//! forced triggering by routine id.
//!
//! A routine triggers on the transition into "all rules true": its
//! actions are fired when its rules all hold under the new snapshot and
//! did not all hold under the old one — never while they merely remain
//! true, and never on the way out.

use crate::action::{Action, Actions, ActionView};
use crate::device::{Device, DeviceKey, DeviceKeyView, DevicesState, DeviceView, find_device,
    states_equal};
use crate::group::Groups;
use crate::kvmap::KeyView;
use crate::rule::{AnyRule, EvalContext, GroupRule, Routine, RoutineId, RoutinesConfig, Rule,
    spec_scene_opt};
use crate::device::{SensorDevice, SensorDeviceView};
use crate::scene::SceneId;
use vstd::prelude::*;

verus! {

/// Why a rule could not be evaluated.
pub ghost enum EvalFailure {
    DeviceNotFound { key: DeviceKeyView },
    SensorKindMismatch { key: DeviceKeyView },
    ExprUnavailable { expr: Seq<char> },
}

/// The outcome of evaluating one rule: a boolean, or a failure that is
/// reported but treated as false where rules are AND-ed.
pub ghost enum RuleEval {
    Value(bool),
    Failed(EvalFailure),
}

/// Why a rule could not be evaluated, carried to the operator.
#[derive(Debug)]
pub enum EvalError {
    /// The rule references a device the snapshot does not hold.
    DeviceNotFound { key: DeviceKey },
    /// A sensor rule compared payloads of different kinds.
    SensorKindMismatch { key: DeviceKey },
    /// The external evaluator gave no verdict for the expression.
    ExprUnavailable { expr: String },
}

impl View for EvalError {
    type V = EvalFailure;

    open spec fn view(&self) -> EvalFailure {
        match self {
            EvalError::DeviceNotFound { key } => EvalFailure::DeviceNotFound { key: key@ },
            EvalError::SensorKindMismatch { key } => EvalFailure::SensorKindMismatch { key: key@ },
            EvalError::ExprUnavailable { expr } => EvalFailure::ExprUnavailable { expr: expr@ },
        }
    }
}

/// Comparison of a sensor rule's expected payload against a device's
/// payload: equality between payloads of the same kind, a failure for
/// mismatched kinds or for a device that is not a sensor.
pub open spec fn spec_sensor_compare(
    expected: SensorDeviceView,
    sensor: Option<SensorDeviceView>,
    key: DeviceKeyView,
) -> RuleEval {
    match (expected, sensor) {
        (
            SensorDeviceView::Boolean { value: rv },
            Some(SensorDeviceView::Boolean { value: sv }),
        ) => RuleEval::Value(rv == sv),
        (SensorDeviceView::Text { value: rv }, Some(SensorDeviceView::Text { value: sv })) =>
            RuleEval::Value(rv == sv),
        _ => RuleEval::Failed(EvalFailure::SensorKindMismatch { key }),
    }
}

/// Whether a device's scene and power match the present fields of a
/// device or group rule; an absent field is "don't care".
pub open spec fn spec_fields_match(
    scene: Option<Seq<char>>,
    power: Option<bool>,
    dev: DeviceView,
) -> bool {
    &&& (scene is Some ==> dev.scene == scene)
    &&& (power is Some ==> dev.powered_on() == power)
}

/// The device keys a group resolves to; a group the index does not know
/// resolves to no devices.
pub open spec fn spec_group_keys(
    groups: Map<Seq<char>, Seq<DeviceKeyView>>,
    group_id: Seq<char>,
) -> Seq<DeviceKeyView> {
    if groups.contains_key(group_id) {
        groups[group_id]
    } else {
        Seq::<DeviceKeyView>::empty()
    }
}

/// A group rule matches when the group resolves to at least one device
/// and every resolved device is present and matches the rule's fields.
pub open spec fn spec_group_matches(
    state: Map<DeviceKeyView, DeviceView>,
    keys: Seq<DeviceKeyView>,
    scene: Option<Seq<char>>,
    power: Option<bool>,
) -> bool {
    keys.len() > 0 && forall|i: int|
        0 <= i < keys.len() ==> state.contains_key(#[trigger] keys[i]) && spec_fields_match(
            scene,
            power,
            state[keys[i]],
        )
}

/// Evaluation of one rule against a state snapshot, a flattened group
/// index and the expression evaluator's verdicts.
///
/// A group rule is false — not a failure — when the group resolves to no
/// devices or when any resolved device is missing from the snapshot; an
/// `Any` rule swallows failures of its sub-rules.
pub open spec fn spec_rule_eval(
    state: Map<DeviceKeyView, DeviceView>,
    groups: Map<Seq<char>, Seq<DeviceKeyView>>,
    ctx: Map<Seq<char>, bool>,
    rule: Rule,
) -> RuleEval
    decreases rule,
{
    match rule {
        Rule::Sensor(sr) => if !state.contains_key(sr.device_ref@) {
            RuleEval::Failed(EvalFailure::DeviceNotFound { key: sr.device_ref@ })
        } else {
            spec_sensor_compare(sr.state@, state[sr.device_ref@].sensor_state(), sr.device_ref@)
        },
        Rule::Device(dr) => if !state.contains_key(dr.device_ref@) {
            RuleEval::Failed(EvalFailure::DeviceNotFound { key: dr.device_ref@ })
        } else {
            RuleEval::Value(
                spec_fields_match(spec_scene_opt(dr.scene), dr.power, state[dr.device_ref@]),
            )
        },
        Rule::Group(gr) => RuleEval::Value(
            spec_group_matches(
                state,
                spec_group_keys(groups, gr.group_id@),
                spec_scene_opt(gr.scene),
                gr.power,
            ),
        ),
        Rule::Any(ar) => RuleEval::Value(
            exists|i: int|
                0 <= i < ar.any@.len() && spec_rule_eval(state, groups, ctx, #[trigger] ar.any@[i])
                    == RuleEval::Value(true),
        ),
        Rule::EvalExpr(e) => if ctx.contains_key(e@) {
            RuleEval::Value(ctx[e@])
        } else {
            RuleEval::Failed(EvalFailure::ExprUnavailable { expr: e@ })
        },
    }
}

/// A routine triggers under a snapshot when it has rules at all and every
/// rule evaluates to true; a failure counts as false here.
pub open spec fn spec_routine_triggered(
    state: Map<DeviceKeyView, DeviceView>,
    groups: Map<Seq<char>, Seq<DeviceKeyView>>,
    ctx: Map<Seq<char>, bool>,
    routine: Routine,
) -> bool {
    routine.rules@.len() > 0 && forall|i: int|
        0 <= i < routine.rules@.len() ==> spec_rule_eval(
            state,
            groups,
            ctx,
            #[trigger] routine.rules@[i],
        ) == RuleEval::Value(true)
}

/// A routine fires on a transition when it triggers under the new
/// snapshot but did not under the old one.
pub open spec fn spec_routine_fires(
    old_state: Map<DeviceKeyView, DeviceView>,
    new_state: Map<DeviceKeyView, DeviceView>,
    groups: Map<Seq<char>, Seq<DeviceKeyView>>,
    old_ctx: Map<Seq<char>, bool>,
    new_ctx: Map<Seq<char>, bool>,
    routine: Routine,
) -> bool {
    spec_routine_triggered(new_state, groups, new_ctx, routine) && !spec_routine_triggered(
        old_state,
        groups,
        old_ctx,
        routine,
    )
}

/// The ids of the routines triggered under a snapshot, in declaration
/// order.
pub open spec fn spec_triggered_id_seq(
    config: Seq<Routine>,
    groups: Map<Seq<char>, Seq<DeviceKeyView>>,
    ctx: Map<Seq<char>, bool>,
    state: Map<DeviceKeyView, DeviceView>,
) -> Seq<Seq<char>>
    decreases config.len(),
{
    if config.len() == 0 {
        Seq::empty()
    } else {
        spec_triggered_id_seq(config.drop_last(), groups, ctx, state) + if spec_routine_triggered(
            state,
            groups,
            ctx,
            config.last(),
        ) {
            seq![config.last().id@]
        } else {
            Seq::empty()
        }
    }
}

/// The ids of the routines triggered under a snapshot, as a set.
pub open spec fn spec_triggered_id_set(
    config: Seq<Routine>,
    groups: Map<Seq<char>, Seq<DeviceKeyView>>,
    ctx: Map<Seq<char>, bool>,
    state: Map<DeviceKeyView, DeviceView>,
) -> Set<Seq<char>> {
    Set::new(
        |id: Seq<char>|
            exists|j: int|
                0 <= j < config.len() && (#[trigger] config[j]).id@ == id
                    && spec_routine_triggered(state, groups, ctx, config[j]),
    )
}

/// With distinct routine ids, a routine fires on a transition exactly
/// when its id lies in the difference between the new snapshot's
/// triggered set and the old one's: the set-difference and per-routine
/// formulations of edge-triggering agree.
pub proof fn lemma_fires_is_set_difference(
    config: Seq<Routine>,
    groups: Map<Seq<char>, Seq<DeviceKeyView>>,
    old_state: Map<DeviceKeyView, DeviceView>,
    new_state: Map<DeviceKeyView, DeviceView>,
    old_ctx: Map<Seq<char>, bool>,
    new_ctx: Map<Seq<char>, bool>,
    i: int,
)
    requires
        0 <= i < config.len(),
        forall|a: int, b: int| 0 <= a < b < config.len() ==> config[a].id@ != config[b].id@,
    ensures
        spec_routine_fires(old_state, new_state, groups, old_ctx, new_ctx, config[i]) <==> (
        spec_triggered_id_set(config, groups, new_ctx, new_state).contains(config[i].id@)
            && !spec_triggered_id_set(config, groups, old_ctx, old_state).contains(
            config[i].id@,
        )),
{
    if spec_routine_fires(old_state, new_state, groups, old_ctx, new_ctx, config[i]) {
        assert(spec_triggered_id_set(config, groups, new_ctx, new_state).contains(config[i].id@));
        if spec_triggered_id_set(config, groups, old_ctx, old_state).contains(config[i].id@) {
            let j = choose|j: int|
                0 <= j < config.len() && (#[trigger] config[j]).id@ == config[i].id@
                    && spec_routine_triggered(old_state, groups, old_ctx, config[j]);
            assert(j == i);
        }
    }
    if spec_triggered_id_set(config, groups, new_ctx, new_state).contains(config[i].id@)
        && !spec_triggered_id_set(config, groups, old_ctx, old_state).contains(config[i].id@) {
        let j = choose|j: int|
            0 <= j < config.len() && (#[trigger] config[j]).id@ == config[i].id@
                && spec_routine_triggered(new_state, groups, new_ctx, config[j]);
        assert(j == i);
        assert(!spec_routine_triggered(old_state, groups, old_ctx, config[i]));
    }
}

/// The actions fired across a transition: for each routine that fires,
/// its actions, routines and actions both in declaration order.
pub open spec fn spec_matching_actions(
    config: Seq<Routine>,
    groups: Map<Seq<char>, Seq<DeviceKeyView>>,
    old_state: Map<DeviceKeyView, DeviceView>,
    new_state: Map<DeviceKeyView, DeviceView>,
    old_ctx: Map<Seq<char>, bool>,
    new_ctx: Map<Seq<char>, bool>,
) -> Seq<ActionView>
    decreases config.len(),
{
    if config.len() == 0 {
        Seq::empty()
    } else {
        spec_matching_actions(config.drop_last(), groups, old_state, new_state, old_ctx, new_ctx)
            + if spec_routine_fires(old_state, new_state, groups, old_ctx, new_ctx, config.last()) {
            config.last().actions@.map_values(|a: Action| a@)
        } else {
            Seq::<ActionView>::empty()
        }
    }
}

/// The first routine carrying the given id.
pub open spec fn spec_find_routine(config: Seq<Routine>, id: Seq<char>) -> Option<Routine>
    decreases config.len(),
{
    if config.len() == 0 {
        None
    } else if config.first().id@ == id {
        Some(config.first())
    } else {
        spec_find_routine(config.drop_first(), id)
    }
}

/// Compares a sensor, device or group rule's fields against one device.
/// `Any` and expression rules have no single device to compare against.
pub fn compare_rule_device_state(rule: &Rule, device: &Device) -> (r: Result<bool, EvalError>)
    requires
        !(rule is Any),
        !(rule is EvalExpr),
    ensures
        (match rule {
            Rule::Sensor(sr) => (match r {
                Ok(b) => spec_sensor_compare(sr.state@, device@.sensor_state(), sr.device_ref@)
                    == RuleEval::Value(b),
                Err(e) => spec_sensor_compare(sr.state@, device@.sensor_state(), sr.device_ref@)
                    == RuleEval::Failed(e@),
            }),
            Rule::Device(dr) => r == Ok::<bool, EvalError>(
                spec_fields_match(spec_scene_opt(dr.scene), dr.power, device@),
            ),
            Rule::Group(gr) => r == Ok::<bool, EvalError>(
                spec_fields_match(spec_scene_opt(gr.scene), gr.power, device@),
            ),
            _ => false,
        }),
{
    match rule {
        Rule::Sensor(sr) => {
            match (&sr.state, device.get_sensor_state()) {
                (
                    SensorDevice::Boolean { value: rv },
                    Some(SensorDevice::Boolean { value: sv }),
                ) => Ok(*rv == *sv),
                (SensorDevice::Text { value: rv }, Some(SensorDevice::Text { value: sv })) => Ok(
                    *rv == *sv,
                ),
                _ => Err(EvalError::SensorKindMismatch { key: sr.device_ref.clone() }),
            }
        },
        Rule::Device(dr) => Ok(fields_match(&dr.scene, &dr.power, device)),
        Rule::Group(gr) => Ok(fields_match(&gr.scene, &gr.power, device)),
        Rule::Any(_) => vstd::pervasive::unreached(),
        Rule::EvalExpr(_) => vstd::pervasive::unreached(),
    }
}

/// Whether the present fields of a device or group rule match a device.
fn fields_match(scene: &Option<SceneId>, power: &Option<bool>, device: &Device) -> (r: bool)
    ensures
        r == spec_fields_match(spec_scene_opt(*scene), *power, device@),
{
    let scene_ok = match scene {
        Some(s) => match device.get_scene() {
            Some(ds) => s.0 == ds.0,
            None => false,
        },
        None => true,
    };
    let power_ok = match power {
        Some(p) => match device.is_powered_on() {
            Some(dp) => *p == dp,
            None => false,
        },
        None => true,
    };
    scene_ok && power_ok
}

/// Evaluates one rule against a snapshot. Failures are returned to the
/// caller — which logs them and treats the rule as false — rather than
/// aborting the matching pass.
#[verifier::loop_isolation(false)]
pub fn is_rule_triggered(
    state: &DevicesState,
    groups: &Groups,
    ctx: &EvalContext,
    rule: &Rule,
) -> (r: Result<bool, EvalError>)
    requires
        state.wf(),
        groups.wf(),
        ctx.wf(),
    ensures
        (match r {
            Ok(b) => spec_rule_eval(state@, groups@, ctx@, *rule) == RuleEval::Value(b),
            Err(e) => spec_rule_eval(state@, groups@, ctx@, *rule) == RuleEval::Failed(e@),
        }),
    decreases *rule,
{
    match rule {
        Rule::Any(ar) => {
            let n = ar.any.len();
            let mut i: usize = 0;
            while i < n
                invariant
                    state.wf(),
                    groups.wf(),
                    ctx.wf(),
                    n == ar.any@.len(),
                    0 <= i <= n,
                    forall|j: int|
                        0 <= j < i ==> spec_rule_eval(state@, groups@, ctx@, #[trigger] ar.any@[j])
                            != RuleEval::Value(true),
                decreases n - i,
            {
                proof {
                    assert(decreases_to!(*rule => *ar));
                    assert(decreases_to!(*ar => ar.any));
                    vstd::std_specs::vec::axiom_vec_decreases_to_view(ar.any);
                    vstd::seq::axiom_seq_index_decreases(ar.any@, i as int);
                    assert(decreases_to!(*rule => ar.any@[i as int]));
                }
                let sub = is_rule_triggered(state, groups, ctx, &ar.any[i]);
                match sub {
                    Ok(true) => {
                        proof {
                            assert(spec_rule_eval(state@, groups@, ctx@, ar.any@[i as int])
                                == RuleEval::Value(true));
                        }
                        return Ok(true);
                    },
                    _ => {},
                }
                i += 1;
            }
            Ok(false)
        },
        Rule::Sensor(sr) => {
            match find_device(state, &sr.device_ref) {
                None => Err(EvalError::DeviceNotFound { key: sr.device_ref.clone() }),
                Some(d) => compare_rule_device_state(rule, &d),
            }
        },
        Rule::Device(dr) => {
            match find_device(state, &dr.device_ref) {
                None => Err(EvalError::DeviceNotFound { key: dr.device_ref.clone() }),
                Some(d) => compare_rule_device_state(rule, &d),
            }
        },
        Rule::Group(gr) => {
            let keys = groups.find_group_device_refs(&gr.group_id);
            let n = keys.len();
            let ghost gkeys = keys@.map_values(|k: DeviceKey| k@);
            proof {
                assert(gkeys.len() == keys@.len());
                assert(spec_group_keys(groups@, gr.group_id@) == gkeys);
            }
            if n == 0 {
                proof {
                    assert(!spec_group_matches(state@, gkeys, spec_scene_opt(gr.scene), gr.power));
                }
                return Ok(false);
            }
            let mut i: usize = 0;
            while i < n
                invariant
                    state.wf(),
                    groups.wf(),
                    n == keys@.len(),
                    0 <= i <= n,
                    gkeys == keys@.map_values(|k: DeviceKey| k@),
                    gkeys == spec_group_keys(groups@, gr.group_id@),
                    forall|j: int|
                        0 <= j < i ==> state@.contains_key(#[trigger] gkeys[j])
                            && spec_fields_match(
                            spec_scene_opt(gr.scene),
                            gr.power,
                            state@[gkeys[j]],
                        ),
                decreases n - i,
            {
                let ghost skeys = gkeys;
                proof {
                    assert(skeys[i as int] == keys@[i as int]@);
                }
                match find_device(state, &keys[i]) {
                    None => {
                        proof {
                            assert(!state@.contains_key(skeys[i as int]));
                            assert(!spec_group_matches(
                                state@,
                                skeys,
                                spec_scene_opt(gr.scene),
                                gr.power,
                            ));
                        }
                        return Ok(false);
                    },
                    Some(d) => {
                        if !fields_match(&gr.scene, &gr.power, &d) {
                            proof {
                                assert(!spec_fields_match(
                                    spec_scene_opt(gr.scene),
                                    gr.power,
                                    state@[skeys[i as int]],
                                ));
                                assert(!spec_group_matches(
                                    state@,
                                    skeys,
                                    spec_scene_opt(gr.scene),
                                    gr.power,
                                ));
                            }
                            return Ok(false);
                        }
                    },
                }
                i += 1;
            }
            proof {
                assert(spec_group_matches(state@, gkeys, spec_scene_opt(gr.scene), gr.power));
            }
            Ok(true)
        },
        Rule::EvalExpr(e) => {
            match ctx.get(e) {
                Some(b) => Ok(*b),
                None => Err(EvalError::ExprUnavailable { expr: e.clone() }),
            }
        },
    }
}

/// A routine triggers when it has rules at all and every rule evaluates
/// to true; a rule that evaluates false, or fails, keeps the routine
/// untriggered without aborting the pass.
pub fn is_routine_triggered(
    state: &DevicesState,
    groups: &Groups,
    ctx: &EvalContext,
    routine: &Routine,
) -> (r: bool)
    requires
        state.wf(),
        groups.wf(),
        ctx.wf(),
    ensures
        r == spec_routine_triggered(state@, groups@, ctx@, *routine),
{
    let n = routine.rules.len();
    if n == 0 {
        return false;
    }
    let mut i: usize = 0;
    while i < n
        invariant
            state.wf(),
            groups.wf(),
            ctx.wf(),
            n == routine.rules@.len(),
            0 <= i <= n,
            forall|j: int|
                0 <= j < i ==> spec_rule_eval(state@, groups@, ctx@, #[trigger] routine.rules@[j])
                    == RuleEval::Value(true),
        decreases n - i,
    {
        match is_rule_triggered(state, groups, ctx, &routine.rules[i]) {
            Ok(true) => {},
            _ => {
                return false;
            },
        }
        i += 1;
    }
    true
}

/// The failures met while evaluating a routine's rules, in rule order.
pub open spec fn spec_routine_eval_failures(
    state: Map<DeviceKeyView, DeviceView>,
    groups: Map<Seq<char>, Seq<DeviceKeyView>>,
    ctx: Map<Seq<char>, bool>,
    rules: Seq<Rule>,
) -> Seq<EvalFailure>
    decreases rules.len(),
{
    if rules.len() == 0 {
        Seq::empty()
    } else {
        spec_routine_eval_failures(state, groups, ctx, rules.drop_last()) + (
        match spec_rule_eval(state, groups, ctx, rules.last()) {
            RuleEval::Failed(f) => seq![f],
            RuleEval::Value(_) => Seq::<EvalFailure>::empty(),
        })
    }
}

/// The failures met while evaluating a routine's rules, for the
/// operator's log. Evaluation treats a failing rule as false and keeps
/// going — a failure never aborts the matching pass — so this is how
/// the failures are surfaced rather than swallowed.
#[verifier::loop_isolation(false)]
pub fn get_routine_eval_failures(
    state: &DevicesState,
    groups: &Groups,
    ctx: &EvalContext,
    routine: &Routine,
) -> (r: Vec<EvalError>)
    requires
        state.wf(),
        groups.wf(),
        ctx.wf(),
    ensures
        r@.map_values(|e: EvalError| e@) == spec_routine_eval_failures(
            state@,
            groups@,
            ctx@,
            routine.rules@,
        ),
{
    let mut r: Vec<EvalError> = Vec::new();
    let n = routine.rules.len();
    let mut i: usize = 0;
    while i < n
        invariant
            0 <= i <= n,
            n == routine.rules@.len(),
            r@.map_values(|e: EvalError| e@) == spec_routine_eval_failures(
                state@,
                groups@,
                ctx@,
                routine.rules@.take(i as int),
            ),
        decreases n - i,
    {
        let ghost pre = routine.rules@.take(i as int);
        let ghost post = routine.rules@.take(i + 1 as int);
        proof {
            assert(post.drop_last() =~= pre);
            assert(post.last() == routine.rules@[i as int]);
        }
        match is_rule_triggered(state, groups, ctx, &routine.rules[i]) {
            Ok(_) => {
                proof {
                    assert(r@.map_values(|e: EvalError| e@) =~= spec_routine_eval_failures(
                        state@,
                        groups@,
                        ctx@,
                        post,
                    ));
                }
            },
            Err(e) => {
                let ghost r_old = r@;
                let ghost ev = e@;
                r.push(e);
                proof {
                    assert(r@.map_values(|x: EvalError| x@) =~= r_old.map_values(
                        |x: EvalError| x@,
                    ) + seq![ev]);
                    assert(r@.map_values(|x: EvalError| x@) =~= spec_routine_eval_failures(
                        state@,
                        groups@,
                        ctx@,
                        post,
                    ));
                }
            },
        }
        i += 1;
    }
    proof {
        assert(routine.rules@.take(n as int) =~= routine.rules@);
    }
    r
}

/// The ids of the routines triggered under the given snapshot, in
/// declaration order.
pub fn get_triggered_routine_ids(
    routines: &RoutinesConfig,
    groups: &Groups,
    ctx: &EvalContext,
    state: &DevicesState,
) -> (r: Vec<RoutineId>)
    requires
        state.wf(),
        groups.wf(),
        ctx.wf(),
    ensures
        r@.map_values(|id: RoutineId| id@) == spec_triggered_id_seq(
            routines.routines@,
            groups@,
            ctx@,
            state@,
        ),
{
    let mut r: Vec<RoutineId> = Vec::new();
    let n = routines.routines.len();
    let mut i: usize = 0;
    while i < n
        invariant
            state.wf(),
            groups.wf(),
            ctx.wf(),
            n == routines.routines@.len(),
            0 <= i <= n,
            r@.map_values(|id: RoutineId| id@) == spec_triggered_id_seq(
                routines.routines@.take(i as int),
                groups@,
                ctx@,
                state@,
            ),
        decreases n - i,
    {
        let ghost pre = routines.routines@.take(i as int);
        let ghost post = routines.routines@.take(i + 1 as int);
        proof {
            assert(post.drop_last() =~= pre);
            assert(post.last() == routines.routines@[i as int]);
        }
        if is_routine_triggered(state, groups, ctx, &routines.routines[i]) {
            let id = routines.routines[i].id.clone();
            proof {
                assert(r@.push(id).map_values(|x: RoutineId| x@) =~= r@.map_values(
                    |x: RoutineId| x@,
                ).push(id@));
                assert(spec_triggered_id_seq(post, groups@, ctx@, state@)
                    == spec_triggered_id_seq(pre, groups@, ctx@, state@) + seq![post.last().id@]);
                assert(r@.map_values(|x: RoutineId| x@).push(id@) =~= spec_triggered_id_seq(
                    pre,
                    groups@,
                    ctx@,
                    state@,
                ) + seq![post.last().id@]);
            }
            r.push(id);
        } else {
            proof {
                assert(spec_triggered_id_seq(post, groups@, ctx@, state@) =~= spec_triggered_id_seq(
                    pre,
                    groups@,
                    ctx@,
                    state@,
                ));
            }
        }
        i += 1;
    }
    proof {
        assert(routines.routines@.take(n as int) =~= routines.routines@);
    }
    r
}

/// Failure of an operation on the rules engine.
#[derive(Debug)]
pub enum RulesError {
    /// No configured routine carries the requested id.
    RoutineNotFound,
}

/// The rules engine: the configured routines and the flattened group
/// index they are evaluated against.
pub struct Rules {
    pub config: RoutinesConfig,
    pub groups: Groups,
}

impl Rules {
    pub open spec fn wf(self) -> bool {
        self.config.wf() && self.groups.wf()
    }

    pub fn new(config: RoutinesConfig, groups: Groups) -> (r: Self)
        ensures
            r.config == config,
            r.groups == groups,
    {
        Rules { config, groups }
    }

    /// Finds the routines that fire on the transition from `old_state`
    /// to `new_state` and returns their actions, routines and actions in
    /// declaration order.
    ///
    /// The evaluation contexts carry the external evaluator's verdicts
    /// derived from each snapshot, so equal snapshots come with equal
    /// contexts; that makes the equal-snapshot fast path exact.
    #[verifier::loop_isolation(false)]
    pub fn find_matching_actions(
        &self,
        old_state: &DevicesState,
        new_state: &DevicesState,
        old_ctx: &EvalContext,
        new_ctx: &EvalContext,
    ) -> (r: Actions)
        requires
            self.wf(),
            old_state.wf(),
            new_state.wf(),
            old_ctx.wf(),
            new_ctx.wf(),
            old_state@ == new_state@ ==> old_ctx@ == new_ctx@,
        ensures
            r@.map_values(|a: Action| a@) == spec_matching_actions(
                self.config.routines@,
                self.groups@,
                old_state@,
                new_state@,
                old_ctx@,
                new_ctx@,
            ),
            old_state@ == new_state@ ==> r@.len() == 0,
    {
        if states_equal(old_state, new_state) {
            let r: Actions = Vec::new();
            proof {
                lemma_no_op_invariant(self.config.routines@, self.groups@, old_state@, old_ctx@);
                assert(r@.map_values(|a: Action| a@) =~= Seq::<ActionView>::empty());
            }
            return r;
        }
        let mut r: Actions = Vec::new();
        let n = self.config.routines.len();
        let mut i: usize = 0;
        while i < n
            invariant
                0 <= i <= n,
                r@.map_values(|a: Action| a@) == spec_matching_actions(
                    self.config.routines@.take(i as int),
                    self.groups@,
                    old_state@,
                    new_state@,
                    old_ctx@,
                    new_ctx@,
                ),
            decreases n - i,
        {
            let ghost pre = self.config.routines@.take(i as int);
            let ghost post = self.config.routines@.take(i + 1 as int);
            proof {
                assert(post.drop_last() =~= pre);
                assert(post.last() == self.config.routines@[i as int]);
            }
            let rt = &self.config.routines[i];
            let trig_new = is_routine_triggered(new_state, &self.groups, new_ctx, rt);
            let trig_old = is_routine_triggered(old_state, &self.groups, old_ctx, rt);
            if trig_new && !trig_old {
                let m = rt.actions.len();
                let mut j: usize = 0;
                while j < m
                    invariant
                        0 <= j <= m,
                        m == rt.actions@.len(),
                        r@.map_values(|a: Action| a@) == spec_matching_actions(
                            pre,
                            self.groups@,
                            old_state@,
                            new_state@,
                            old_ctx@,
                            new_ctx@,
                        ) + rt.actions@.take(j as int).map_values(|a: Action| a@),
                    decreases m - j,
                {
                    let ghost r_old = r@;
                    r.push(rt.actions[j].clone());
                    proof {
                        assert(r@.map_values(|a: Action| a@) =~= r_old.map_values(|a: Action| a@)
                            + seq![rt.actions@[j as int]@]);
                        assert(rt.actions@.take(j + 1 as int).map_values(|a: Action| a@)
                            =~= rt.actions@.take(j as int).map_values(|a: Action| a@)
                            + seq![rt.actions@[j as int]@]);
                        assert(r@.map_values(|a: Action| a@) =~= spec_matching_actions(
                            pre,
                            self.groups@,
                            old_state@,
                            new_state@,
                            old_ctx@,
                            new_ctx@,
                        ) + rt.actions@.take(j + 1 as int).map_values(|a: Action| a@));
                    }
                    j += 1;
                }
                proof {
                    assert(rt.actions@.take(m as int) =~= rt.actions@);
                    assert(spec_routine_fires(
                        old_state@,
                        new_state@,
                        self.groups@,
                        old_ctx@,
                        new_ctx@,
                        post.last(),
                    ));
                }
            } else {
                proof {
                    assert(!spec_routine_fires(
                        old_state@,
                        new_state@,
                        self.groups@,
                        old_ctx@,
                        new_ctx@,
                        post.last(),
                    ));
                    assert(r@.map_values(|a: Action| a@) =~= spec_matching_actions(
                        post,
                        self.groups@,
                        old_state@,
                        new_state@,
                        old_ctx@,
                        new_ctx@,
                    ));
                }
            }
            i += 1;
        }
        proof {
            assert(self.config.routines@.take(n as int) =~= self.config.routines@);
        }
        r
    }

    /// An internal state update has occurred: where the changed device
    /// was already known, runs the matching pass over the transition and
    /// returns the actions to fire. A first observation of a device
    /// fires nothing.
    pub fn handle_internal_state_update(
        &self,
        old_state: &DevicesState,
        new_state: &DevicesState,
        old: &Option<Device>,
        _new: &Device,
        old_ctx: &EvalContext,
        new_ctx: &EvalContext,
    ) -> (r: Actions)
        requires
            self.wf(),
            old_state.wf(),
            new_state.wf(),
            old_ctx.wf(),
            new_ctx.wf(),
            old_state@ == new_state@ ==> old_ctx@ == new_ctx@,
        ensures
            (match old {
                Some(_) => r@.map_values(|a: Action| a@) == spec_matching_actions(
                    self.config.routines@,
                    self.groups@,
                    old_state@,
                    new_state@,
                    old_ctx@,
                    new_ctx@,
                ),
                None => r@.len() == 0,
            }),
    {
        match old {
            Some(_) => self.find_matching_actions(old_state, new_state, old_ctx, new_ctx),
            None => Vec::new(),
        }
    }

    /// Runs the named routine's actions regardless of its rules; an
    /// unknown id is reported, never a panic.
    #[verifier::loop_isolation(false)]
    pub fn force_trigger_routine(&self, routine_id: &RoutineId) -> (r: Result<
        Actions,
        RulesError,
    >)
        ensures
            (match r {
                Ok(actions) => {
                    &&& spec_find_routine(self.config.routines@, routine_id@) is Some
                    &&& actions@.map_values(|a: Action| a@) == spec_find_routine(
                        self.config.routines@,
                        routine_id@,
                    )->Some_0.actions@.map_values(|a: Action| a@)
                },
                Err(_) => spec_find_routine(self.config.routines@, routine_id@) is None,
            }),
    {
        let n = self.config.routines.len();
        proof {
            assert(self.config.routines@.skip(0) =~= self.config.routines@);
        }
        let mut i: usize = 0;
        while i < n
            invariant
                0 <= i <= n,
                spec_find_routine(self.config.routines@.skip(i as int), routine_id@)
                    == spec_find_routine(self.config.routines@, routine_id@),
            decreases n - i,
        {
            let ghost tail = self.config.routines@.skip(i as int);
            proof {
                assert(tail.len() > 0);
                assert(tail.first() == self.config.routines@[i as int]);
                assert(tail.drop_first() =~= self.config.routines@.skip(i + 1 as int));
            }
            if self.config.routines[i].id.key_eq(routine_id) {
                let rt = &self.config.routines[i];
                proof {
                    assert(spec_find_routine(tail, routine_id@) == Some(*rt));
                }
                let m = rt.actions.len();
                let mut actions: Actions = Vec::new();
                let mut j: usize = 0;
                while j < m
                    invariant
                        0 <= j <= m,
                        m == rt.actions@.len(),
                        actions@.len() == j,
                        forall|x: int| 0 <= x < j ==> actions@[x]@ == rt.actions@[x]@,
                    decreases m - j,
                {
                    actions.push(rt.actions[j].clone());
                    j += 1;
                }
                proof {
                    assert(actions@.map_values(|a: Action| a@) =~= rt.actions@.map_values(
                        |a: Action| a@,
                    ));
                }
                return Ok(actions);
            }
            i += 1;
        }
        proof {
            assert(self.config.routines@.skip(n as int).len() == 0);
        }
        Err(RulesError::RoutineNotFound)
    }
}

/// Equal snapshots, with the evaluator's verdicts derived from them,
/// fire nothing: the matching pass over an unchanged state is empty.
pub proof fn lemma_no_op_invariant(
    config: Seq<Routine>,
    groups: Map<Seq<char>, Seq<DeviceKeyView>>,
    state: Map<DeviceKeyView, DeviceView>,
    ctx: Map<Seq<char>, bool>,
)
    ensures
        spec_matching_actions(config, groups, state, state, ctx, ctx) == Seq::<ActionView>::empty(),
    decreases config.len(),
{
    if config.len() > 0 {
        lemma_no_op_invariant(config.drop_last(), groups, state, ctx);
        assert(!spec_routine_fires(state, state, groups, ctx, ctx, config.last()));
        assert(spec_matching_actions(config, groups, state, state, ctx, ctx)
            =~= Seq::<ActionView>::empty());
    }
}

/// Edge-triggering: a routine whose rules become true at one snapshot
/// and remain true at a later one fires on the transition in, and does
/// not fire again while it stays true.
pub proof fn lemma_edge_triggering(
    groups: Map<Seq<char>, Seq<DeviceKeyView>>,
    s0: Map<DeviceKeyView, DeviceView>,
    s1: Map<DeviceKeyView, DeviceView>,
    s2: Map<DeviceKeyView, DeviceView>,
    c0: Map<Seq<char>, bool>,
    c1: Map<Seq<char>, bool>,
    c2: Map<Seq<char>, bool>,
    rt: Routine,
)
    requires
        !spec_routine_triggered(s0, groups, c0, rt),
        spec_routine_triggered(s1, groups, c1, rt),
        spec_routine_triggered(s2, groups, c2, rt),
    ensures
        spec_routine_fires(s0, s1, groups, c0, c1, rt),
        !spec_routine_fires(s1, s2, groups, c1, c2, rt),
        spec_matching_actions(seq![rt], groups, s0, s1, c0, c1) == rt.actions@.map_values(
            |a: Action| a@,
        ),
        spec_matching_actions(seq![rt], groups, s1, s2, c1, c2) == Seq::<ActionView>::empty(),
{
    let cfg = seq![rt];
    let e = Seq::<ActionView>::empty();
    assert(cfg.drop_last() =~= Seq::<Routine>::empty());
    assert(cfg.last() == rt);
    assert(spec_matching_actions(Seq::<Routine>::empty(), groups, s0, s1, c0, c1) == e);
    assert(spec_matching_actions(Seq::<Routine>::empty(), groups, s1, s2, c1, c2) == e);
    assert(spec_routine_fires(s0, s1, groups, c0, c1, rt));
    assert(spec_matching_actions(cfg, groups, s0, s1, c0, c1) == e + rt.actions@.map_values(
        |a: Action| a@,
    ));
    assert(e + rt.actions@.map_values(|a: Action| a@) =~= rt.actions@.map_values(|a: Action| a@));
    assert(!spec_routine_fires(s1, s2, groups, c1, c2, rt));
    assert(spec_matching_actions(cfg, groups, s1, s2, c1, c2) == e + e);
    assert(e + e =~= e);
}

/// AND semantics: a routine with exactly two rules triggers when both
/// evaluate to true, and only then.
pub proof fn lemma_and_semantics(
    state: Map<DeviceKeyView, DeviceView>,
    groups: Map<Seq<char>, Seq<DeviceKeyView>>,
    ctx: Map<Seq<char>, bool>,
    rt: Routine,
)
    requires
        rt.rules@.len() == 2,
    ensures
        spec_routine_triggered(state, groups, ctx, rt) <==> (spec_rule_eval(
            state,
            groups,
            ctx,
            rt.rules@[0],
        ) == RuleEval::Value(true) && spec_rule_eval(state, groups, ctx, rt.rules@[1])
            == RuleEval::Value(true)),
{
    if spec_rule_eval(state, groups, ctx, rt.rules@[0]) == RuleEval::Value(true) && spec_rule_eval(
        state,
        groups,
        ctx,
        rt.rules@[1],
    ) == RuleEval::Value(true) {
        assert forall|i: int| 0 <= i < rt.rules@.len() implies spec_rule_eval(
            state,
            groups,
            ctx,
            #[trigger] rt.rules@[i],
        ) == RuleEval::Value(true) by {
            if i == 0 {
            } else {
                assert(i == 1);
            }
        }
    }
}

/// ANY semantics: an `Any` rule with exactly two sub-rules is true when
/// either sub-rule evaluates to true, and only then; sub-rule failures
/// are swallowed.
pub proof fn lemma_any_semantics(
    state: Map<DeviceKeyView, DeviceView>,
    groups: Map<Seq<char>, Seq<DeviceKeyView>>,
    ctx: Map<Seq<char>, bool>,
    ar: AnyRule,
)
    requires
        ar.any@.len() == 2,
    ensures
        spec_rule_eval(state, groups, ctx, Rule::Any(ar)) == RuleEval::Value(
            spec_rule_eval(state, groups, ctx, ar.any@[0]) == RuleEval::Value(true)
                || spec_rule_eval(state, groups, ctx, ar.any@[1]) == RuleEval::Value(true),
        ),
{
    if spec_rule_eval(state, groups, ctx, ar.any@[0]) == RuleEval::Value(true) {
        assert(exists|i: int|
            0 <= i < ar.any@.len() && spec_rule_eval(state, groups, ctx, #[trigger] ar.any@[i])
                == RuleEval::Value(true));
    } else if spec_rule_eval(state, groups, ctx, ar.any@[1]) == RuleEval::Value(true) {
        assert(exists|i: int|
            0 <= i < ar.any@.len() && spec_rule_eval(state, groups, ctx, #[trigger] ar.any@[i])
                == RuleEval::Value(true));
    } else {
        assert forall|i: int| 0 <= i < ar.any@.len() implies spec_rule_eval(
            state,
            groups,
            ctx,
            #[trigger] ar.any@[i],
        ) != RuleEval::Value(true) by {
            if i == 0 {
            } else {
                assert(i == 1);
            }
        }
    }
}

/// Partial-failure isolation: a group rule with a member missing from
/// the snapshot is false — not a failure that aborts the pass. Routine
/// evaluation is a pure function of the routine's own rules, so other
/// routines in the same pass are unaffected.
pub proof fn lemma_group_partial_failure(
    state: Map<DeviceKeyView, DeviceView>,
    groups: Map<Seq<char>, Seq<DeviceKeyView>>,
    ctx: Map<Seq<char>, bool>,
    gr: GroupRule,
    missing: int,
)
    requires
        0 <= missing < spec_group_keys(groups, gr.group_id@).len(),
        !state.contains_key(spec_group_keys(groups, gr.group_id@)[missing]),
    ensures
        spec_rule_eval(state, groups, ctx, Rule::Group(gr)) == RuleEval::Value(false),
{
    assert(!spec_group_matches(
        state,
        spec_group_keys(groups, gr.group_id@),
        spec_scene_opt(gr.scene),
        gr.power,
    ));
}

} // verus!
