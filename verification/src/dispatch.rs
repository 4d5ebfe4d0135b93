//! The per-message dispatch pipeline: classify a decoded message by its
//! address, extract the sequence id, look the sequence up (creating it on
//! first sighting), run the cue branch and the fader branch, and plan the
//! outbound console messages and remote-registry actions. The caller performs
//! the plan: it sends each planned datagram after its delay and carries out
//! each remote action, in order.

use vstd::prelude::*;

use crate::cue::{parse_cue_info, parse_cue_info_spec, CueInfoV};
use crate::error::BridgeError;
use crate::osc::{
    addr_matches, arg_views, match_osc_pattern, osc_addr_ok, osc_address_valid, osc_pattern_ok,
    ArgV, Message, OscArg, OutMessage,
};
use crate::sequence::{
    action_views, cue_numbers, fader_key, fader_keys, fader_prefix, has_cue, registry_ids,
    registry_wf, seq_wf, Action, ActionV, Movement, Sequence, SequenceRegistry,
};
use crate::text::{
    after_last_dot, dec_str, i32_to_string, parse_i32, parse_i32_spec, str_eq, trailing_segment,
};

verus! {

/// The inbound address pattern of interest: a wildcard path whose final
/// segment is the sequence number.
pub const FADER_BUTTON: &'static str = "/14.14.1.6.*";

/// One outbound console message, to be sent after waiting the given delay.
#[derive(Debug)]
pub struct TimedMessage {
    pub delay_before_ms: u64,
    pub message: OutMessage,
}

/// The mathematical content of a `TimedMessage`.
pub struct TimedMessageV {
    pub delay_before_ms: u64,
    pub addr: Seq<char>,
    pub value: i32,
}

impl View for TimedMessage {
    type V = TimedMessageV;

    open spec fn view(&self) -> TimedMessageV {
        TimedMessageV {
            delay_before_ms: self.delay_before_ms,
            addr: self.message.addr@,
            value: self.message.value,
        }
    }
}

/// One step of a dispatch plan, in the order the caller must perform them:
/// either a remote-registry action or an outbound console datagram.
#[derive(Debug)]
pub enum Step {
    Remote(Action),
    Send(TimedMessage),
}

/// The mathematical content of a `Step`.
pub enum StepV {
    Remote(ActionV),
    Send(TimedMessageV),
}

impl View for Step {
    type V = StepV;

    open spec fn view(&self) -> StepV {
        match self {
            Step::Remote(a) => StepV::Remote(a@),
            Step::Send(t) => StepV::Send(t@),
        }
    }
}

/// The views of a run of steps.
pub open spec fn step_views(s: Seq<Step>) -> Seq<StepV> {
    s.map_values(|x: Step| x@)
}

/// Actions lifted into plan steps.
pub open spec fn remote_steps(actions: Seq<ActionV>) -> Seq<StepV> {
    actions.map_values(|a: ActionV| StepV::Remote(a))
}

/// The console address of a cue-level command.
pub open spec fn cue_command_addr(id: i32, number: Seq<char>, function: Seq<char>) -> Seq<char> {
    "/ma/seq/"@ + dec_str(id as int) + "/cue/"@ + number + "/"@ + function
}

/// The console address of a sequence-level command.
pub open spec fn seq_command_addr(id: i32, function: Seq<char>) -> Seq<char> {
    "/ma/seq/"@ + dec_str(id as int) + "/"@ + function
}

fn build_cue_command_addr(id: i32, number: &String, function: &String) -> (r: String)
    ensures
        r@ == cue_command_addr(id, number@, function@),
{
    let mut r = String::from_str("/ma/seq/");
    let ids = i32_to_string(id);
    r.append(ids.as_str());
    r.append("/cue/");
    r.append(number.as_str());
    r.append("/");
    r.append(function.as_str());
    proof {
        assert(r@ =~= cue_command_addr(id, number@, function@));
    }
    r
}

fn build_seq_command_addr(id: i32, function: &String) -> (r: String)
    ensures
        r@ == seq_command_addr(id, function@),
{
    let mut r = String::from_str("/ma/seq/");
    let ids = i32_to_string(id);
    r.append(ids.as_str());
    r.append("/");
    r.append(function.as_str());
    proof {
        assert(r@ =~= seq_command_addr(id, function@));
    }
    r
}

/// The cue slug a message carries: its third argument, when the message has
/// exactly three arguments and that argument is a string.
pub open spec fn cue_slug_of(args: Seq<ArgV>) -> Option<Seq<char>> {
    if args.len() == 3 && args[2] is Str {
        Some(args[2]->Str_0)
    } else {
        None
    }
}

/// Whether the message marks the sequence as on a cue: its second argument
/// equals the integer 1 (in a three-argument message).
pub open spec fn is_on_cue(args: Seq<ArgV>) -> bool {
    args.len() == 3 && args[1] == ArgV::Int(1)
}

/// The movement a function name selects, if any.
pub open spec fn movement_of(function: Seq<char>) -> Option<Movement> {
    if function == "Go+"@ {
        Some(Movement::GoPlus)
    } else if function == "Go-"@ {
        Some(Movement::GoMinus)
    } else if function == "Goto"@ {
        Some(Movement::Goto)
    } else if function == ">>>"@ {
        Some(Movement::JumpForward)
    } else if function == "<<<"@ {
        Some(Movement::JumpBackward)
    } else {
        None
    }
}

/// The registration actions a cue-bearing message asks for, given the cue
/// numbers the sequence already knows.
pub open spec fn registration_action_views(id: i32, pre: Seq<Seq<char>>, info: CueInfoV) -> Seq<
    ActionV,
> {
    if pre.contains(info.number) {
        seq![]
    } else {
        seq![
            ActionV::ProvisionCueTarget { sequence_id: id, number: info.number, name: info.name },
            ActionV::RenameSequence { sequence_id: id, name: info.sequence_name },
        ]
    }
}

/// The actions a recognised movement asks for.
pub open spec fn movement_action_views_at(id: i32, info: CueInfoV, m: Movement) -> Seq<ActionV> {
    seq![
        ActionV::RenameCue { sequence_id: id, number: info.number, name: info.name },
        ActionV::TriggerMomentary { sequence_id: id, number: info.number, movement: m },
    ]
}

/// The three outbound console messages of a cue command: a momentary pulse on
/// the cue-level address (on, then off after 50 ms), then the sequence-level
/// on/off state.
pub open spec fn send_steps(id: i32, number: Seq<char>, function: Seq<char>, on: bool) -> Seq<
    StepV,
> {
    seq![
        StepV::Send(
            TimedMessageV {
                delay_before_ms: 0,
                addr: cue_command_addr(id, number, function),
                value: 1,
            },
        ),
        StepV::Send(
            TimedMessageV {
                delay_before_ms: 50,
                addr: cue_command_addr(id, number, function),
                value: 0,
            },
        ),
        StepV::Send(
            TimedMessageV {
                delay_before_ms: 0,
                addr: seq_command_addr(id, function),
                value: if on {
                    1
                } else {
                    0
                },
            },
        ),
    ]
}

/// The whole plan of the cue branch for a parsed cue: registration, then —
/// unless the function is the "Off" sentinel — the three console messages and
/// the movement the function selects.
pub open spec fn cue_steps(
    id: i32,
    pre: Seq<Seq<char>>,
    info: CueInfoV,
    function: Seq<char>,
    on: bool,
) -> Seq<StepV> {
    let reg = remote_steps(registration_action_views(id, pre, info));
    if function == "Off"@ {
        reg
    } else {
        let mv = match movement_of(function) {
            Some(m) => remote_steps(movement_action_views_at(id, info, m)),
            None => seq![],
        };
        reg + send_steps(id, info.number, function, on) + mv
    }
}

fn append_remote(steps: &mut Vec<Step>, actions: Vec<Action>)
    ensures
        step_views(final(steps)@) == step_views(old(steps)@) + remote_steps(
            action_views(actions@),
        ),
{
    let mut rest = actions;
    let ghost orig: Seq<Action> = rest@;
    let mut i: usize = 0;
    let n = rest.len();
    while i < n
        invariant
            0 <= i <= n,
            n == orig.len(),
            rest@ == orig.skip(i as int),
            step_views(steps@) == step_views(old(steps)@) + remote_steps(
                action_views(orig.take(i as int)),
            ),
        decreases n - i,
    {
        let a = rest.remove(0);
        proof {
            assert(orig.skip(i as int)[0] == orig[i as int]);
            assert(a == orig[i as int]);
        }
        let ghost prev: Seq<Step> = steps@;
        steps.push(Step::Remote(a));
        proof {
            assert(rest@ =~= orig.skip(i + 1));
            assert(orig.take(i + 1) =~= orig.take(i as int).push(orig[i as int]));
            assert(action_views(orig.take(i + 1)) =~= action_views(orig.take(i as int)).push(
                orig[i as int]@,
            ));
            assert(remote_steps(action_views(orig.take(i + 1))) =~= remote_steps(
                action_views(orig.take(i as int)),
            ).push(StepV::Remote(orig[i as int]@)));
            assert(step_views(steps@) =~= step_views(prev).push(StepV::Remote(a@)));
            assert(step_views(prev).push(StepV::Remote(a@)) =~= step_views(old(steps)@)
                + remote_steps(action_views(orig.take(i as int))).push(
                StepV::Remote(orig[i as int]@),
            ));
            assert(step_views(steps@) =~= step_views(old(steps)@) + remote_steps(
                action_views(orig.take(i + 1)),
            ));
        }
        i += 1;
    }
    proof {
        assert(orig.take(n as int) =~= orig);
    }
}

/// Runs the cue branch of one matched message against its sequence: reads
/// the slug and the on-flag from the arguments, registers the cue, and plans
/// the console messages and the movement the function name selects.
///
/// A message without a three-argument string slug is rejected with an
/// argument error; a malformed slug with a parse error; neither changes the
/// sequence. On success the cue named by the slug is known afterwards, and
/// the plan is exactly `cue_steps` for the state the sequence was in.
pub fn handle_cues(function: &String, args: &Vec<OscArg>, sequence: &mut Sequence) -> (r: Result<
    Vec<Step>,
    BridgeError,
>)
    requires
        seq_wf(*old(sequence)),
    ensures
        seq_wf(*final(sequence)),
        final(sequence).id == old(sequence).id,
        final(sequence).faders == old(sequence).faders,
        cue_slug_of(arg_views(args@)) is None ==> r == Err::<Vec<Step>, BridgeError>(
            BridgeError::ArgumentError,
        ) && *final(sequence) == *old(sequence),
        (cue_slug_of(arg_views(args@)) matches Some(slug) && parse_cue_info_spec(slug) is Err)
            ==> r == Err::<Vec<Step>, BridgeError>(BridgeError::ParseError) && *final(sequence)
            == *old(sequence),
        cue_slug_of(arg_views(args@)) is Some && parse_cue_info_spec(
            cue_slug_of(arg_views(args@))->0,
        ) is Ok ==> {
            let info = parse_cue_info_spec(cue_slug_of(arg_views(args@))->0)->Ok_0;
            &&& r is Ok
            &&& has_cue(*final(sequence), info.number)
            &&& (has_cue(*old(sequence), info.number) ==> *final(sequence) == *old(sequence))
            &&& (!has_cue(*old(sequence), info.number) ==> cue_numbers(*final(sequence))
                == cue_numbers(*old(sequence)).push(info.number))
            &&& (r matches Ok(steps) ==> step_views(steps@) == cue_steps(
                old(sequence).id,
                cue_numbers(*old(sequence)),
                info,
                function@,
                is_on_cue(arg_views(args@)),
            ))
        },
{
    let slug: &String = if args.len() == 3 {
        match &args[2] {
            OscArg::Str(s) => s,
            _ => {
                proof {
                    assert(arg_views(args@)[2] == args@[2]@);
                    assert(cue_slug_of(arg_views(args@)) is None);
                }
                return Err(BridgeError::ArgumentError);
            },
        }
    } else {
        proof {
            assert(arg_views(args@).len() == args@.len());
            assert(cue_slug_of(arg_views(args@)) is None);
        }
        return Err(BridgeError::ArgumentError);
    };
    assert(cue_slug_of(arg_views(args@)) == Some(slug@));
    let is_on = if args.len() == 3 {
        match &args[1] {
            OscArg::Int(v) => *v == 1,
            _ => false,
        }
    } else {
        false
    };
    assert(is_on == is_on_cue(arg_views(args@)));
    let info = match parse_cue_info(slug.clone()) {
        Ok(ci) => ci,
        Err(e) => {
            return Err(e);
        },
    };
    let ghost infov: CueInfoV = info@;
    let ghost pre: Seq<Seq<char>> = cue_numbers(*sequence);
    let reg_actions = sequence.register_cue(&info);
    let mut steps: Vec<Step> = Vec::new();
    proof {
        assert(action_views(reg_actions@) =~= registration_action_views(
            old(sequence).id,
            pre,
            infov,
        ));
        assert(step_views(Seq::<Step>::empty()) =~= Seq::<StepV>::empty());
        assert(Seq::<StepV>::empty() + remote_steps(action_views(reg_actions@)) =~= remote_steps(
            action_views(reg_actions@),
        ));
    }
    append_remote(&mut steps, reg_actions);
    if str_eq(function.as_str(), "Off") {
        proof {
            reveal_strlit("Off");
            assert(step_views(steps@) =~= cue_steps(
                old(sequence).id,
                pre,
                infov,
                function@,
                is_on,
            ));
        }
        return Ok(steps);
    }
    let ghost steps_reg: Seq<StepV> = step_views(steps@);
    let addr_on = build_cue_command_addr(sequence.id, &info.number, function);
    steps.push(
        Step::Send(TimedMessage { delay_before_ms: 0, message: OutMessage { addr: addr_on, value: 1 } }),
    );
    let addr_off = build_cue_command_addr(sequence.id, &info.number, function);
    steps.push(
        Step::Send(
            TimedMessage { delay_before_ms: 50, message: OutMessage { addr: addr_off, value: 0 } },
        ),
    );
    let addr_seq = build_seq_command_addr(sequence.id, function);
    let flag: i32 = if is_on {
        1
    } else {
        0
    };
    steps.push(
        Step::Send(
            TimedMessage { delay_before_ms: 0, message: OutMessage { addr: addr_seq, value: flag } },
        ),
    );
    proof {
        assert(step_views(steps@) =~= steps_reg + send_steps(
            old(sequence).id,
            infov.number,
            function@,
            is_on,
        ));
    }
    let ghost steps_sent: Seq<StepV> = step_views(steps@);
    let movement_actions: Option<Vec<Action>> = if str_eq(function.as_str(), "Go+") {
        match sequence.go_plus(info) {
            Ok(a) => Some(a),
            Err(e) => {
                return Err(e);
            },
        }
    } else if str_eq(function.as_str(), "Go-") {
        match sequence.go_minus(info) {
            Ok(a) => Some(a),
            Err(e) => {
                return Err(e);
            },
        }
    } else if str_eq(function.as_str(), "Goto") {
        match sequence.goto(info) {
            Ok(a) => Some(a),
            Err(e) => {
                return Err(e);
            },
        }
    } else if str_eq(function.as_str(), ">>>") {
        match sequence.jump_forward(info) {
            Ok(a) => Some(a),
            Err(e) => {
                return Err(e);
            },
        }
    } else if str_eq(function.as_str(), "<<<") {
        match sequence.jump_backward(info) {
            Ok(a) => Some(a),
            Err(e) => {
                return Err(e);
            },
        }
    } else {
        None
    };
    match movement_actions {
        Some(acts) => {
            proof {
                assert(movement_of(function@) is Some);
                assert(action_views(acts@) =~= movement_action_views_at(
                    old(sequence).id,
                    infov,
                    movement_of(function@)->0,
                ));
            }
            append_remote(&mut steps, acts);
            proof {
                assert(step_views(steps@) =~= (steps_reg + send_steps(
                    old(sequence).id,
                    infov.number,
                    function@,
                    is_on,
                )) + remote_steps(
                    movement_action_views_at(old(sequence).id, infov, movement_of(function@)->0),
                ));
                assert(step_views(steps@) =~= cue_steps(
                    old(sequence).id,
                    pre,
                    infov,
                    function@,
                    is_on,
                ));
            }
        },
        None => {
            proof {
                assert(movement_of(function@) is None);
                assert(steps_sent + Seq::<StepV>::empty() =~= steps_sent);
                assert(step_views(steps@) =~= cue_steps(
                    old(sequence).id,
                    pre,
                    infov,
                    function@,
                    is_on,
                ));
            }
        },
    }
    Ok(steps)
}

fn append_steps(steps: &mut Vec<Step>, more: Vec<Step>)
    ensures
        step_views(final(steps)@) == step_views(old(steps)@) + step_views(more@),
{
    let mut rest = more;
    let ghost orig: Seq<Step> = rest@;
    let mut i: usize = 0;
    let n = rest.len();
    while i < n
        invariant
            0 <= i <= n,
            n == orig.len(),
            rest@ == orig.skip(i as int),
            step_views(steps@) == step_views(old(steps)@) + step_views(orig.take(i as int)),
        decreases n - i,
    {
        let s = rest.remove(0);
        proof {
            assert(orig.skip(i as int)[0] == orig[i as int]);
            assert(s == orig[i as int]);
        }
        let ghost prev: Seq<Step> = steps@;
        steps.push(s);
        proof {
            assert(rest@ =~= orig.skip(i + 1));
            assert(orig.take(i + 1) =~= orig.take(i as int).push(orig[i as int]));
            assert(step_views(orig.take(i + 1)) =~= step_views(orig.take(i as int)).push(
                orig[i as int]@,
            ));
            assert(step_views(steps@) =~= step_views(prev).push(orig[i as int]@));
            assert(step_views(steps@) =~= step_views(old(steps)@) + step_views(orig.take(i + 1)));
        }
        i += 1;
    }
    proof {
        assert(orig.take(n as int) =~= orig);
    }
}

/// Why a message was dropped without touching any sequence state.
#[derive(Debug, PartialEq, Eq, Structural)]
pub enum DropReason {
    InvalidAddress,
    PatternInvalid,
    Unmatched,
    BadSequenceId,
}

impl DropReason {
    /// The taxonomy error a dropped message is logged under: every reason a
    /// message is dropped before dispatch concerns its address.
    pub fn error(&self) -> (r: BridgeError)
        ensures
            r == BridgeError::AddressError,
    {
        BridgeError::AddressError
    }
}

/// The outcome of dispatching one message: dropped outright; matched but
/// carrying no string function as its first argument (the sequence is still
/// ensured to exist); or handled, with the plan to perform and the outcome
/// of each of the two independent best-effort branches.
#[derive(Debug)]
pub enum Disposition {
    Skipped(DropReason),
    NoFunction { steps: Vec<Step> },
    Handled { steps: Vec<Step>, cue_error: Option<BridgeError>, fader_error: Option<BridgeError> },
}

/// The index of the sequence with this id, where one exists.
pub open spec fn seq_index_of(r: SequenceRegistry, id: i32) -> int {
    choose|i: int| 0 <= i < r.sequences@.len() && r.sequences@[i].id == id
}

pub proof fn lemma_seq_index_of(r: SequenceRegistry, id: i32, i: int)
    requires
        registry_wf(r),
        0 <= i < r.sequences@.len(),
        r.sequences@[i].id == id,
    ensures
        seq_index_of(r, id) == i,
        registry_ids(r).contains(id),
{
    assert(registry_ids(r)[i] == id);
    assert(registry_ids(r).contains(id));
    assert(exists|j: int| 0 <= j < r.sequences@.len() && r.sequences@[j].id == id);
    let t = seq_index_of(r, id);
    assert(0 <= t < r.sequences@.len() && r.sequences@[t].id == id);
    if t != i {
        assert(registry_ids(r)[t] == id);
    }
}

/// Whether the message both has a valid address and matches the pattern.
pub open spec fn matched(pattern: Seq<char>, m: crate::osc::MessageV) -> bool {
    osc_addr_ok(m.addr) && osc_pattern_ok(pattern) && addr_matches(pattern, m.addr)
}

/// The sequence id a matched address carries: its trailing dot-separated
/// segment read as a decimal integer.
pub open spec fn msg_seq_id(m: crate::osc::MessageV) -> Option<i32> {
    parse_i32_spec(after_last_dot(m.addr))
}

/// The function name of a message: its first argument, when it is a string.
pub open spec fn message_function(args: Seq<ArgV>) -> Option<Seq<char>> {
    if args.len() > 0 && args[0] is Str {
        Some(args[0]->Str_0)
    } else {
        None
    }
}

/// The action that provisions a newly sighted sequence, or nothing for a
/// known one.
pub open spec fn creation_action_views(known: bool, id: i32) -> Seq<ActionV> {
    if known {
        seq![]
    } else {
        seq![ActionV::ProvisionSequenceTarget { sequence_id: id }]
    }
}

/// The actions of the fader branch, given the fader keys the sequence
/// already owns.
pub open spec fn fader_action_views(
    id: i32,
    pre: Seq<Seq<char>>,
    function: Seq<char>,
    args: Seq<ArgV>,
) -> Seq<ActionV> {
    if fader_prefix().is_prefix_of(function) && args.len() >= 3 && args[2] is Float {
        let key = fader_key(id, function);
        let bits = args[2]->Float_0;
        if pre.contains(key) {
            seq![ActionV::UpdateFaderLevel { sequence_id: id, key, level_bits: bits }]
        } else {
            seq![
                ActionV::ProvisionFader { sequence_id: id, key, function },
                ActionV::UpdateFaderLevel { sequence_id: id, key, level_bits: bits },
            ]
        }
    } else {
        seq![]
    }
}

/// The error the cue branch reports, if any: a missing slug is an argument
/// error, a malformed one a parse error.
pub open spec fn cue_error_of(args: Seq<ArgV>) -> Option<BridgeError> {
    match cue_slug_of(args) {
        Option::None => Some(BridgeError::ArgumentError),
        Option::Some(slug) => match parse_cue_info_spec(slug) {
            Result::Err(e) => Some(e),
            Result::Ok(info) => None,
        },
    }
}

/// The error the fader branch reports, if any.
pub open spec fn fader_error_of(function: Seq<char>, args: Seq<ArgV>) -> Option<BridgeError> {
    if !fader_prefix().is_prefix_of(function) {
        Some(BridgeError::ArgumentError)
    } else if !(args.len() >= 3 && args[2] is Float) {
        Some(BridgeError::ArgumentError)
    } else {
        None
    }
}

/// The steps of the cue branch, empty when its slug is missing or malformed.
pub open spec fn cue_branch_steps(
    id: i32,
    pre_cues: Seq<Seq<char>>,
    function: Seq<char>,
    args: Seq<ArgV>,
) -> Seq<StepV> {
    match cue_slug_of(args) {
        Option::Some(slug) => match parse_cue_info_spec(slug) {
            Result::Ok(info) => cue_steps(id, pre_cues, info, function, is_on_cue(args)),
            Result::Err(e) => seq![],
        },
        Option::None => seq![],
    }
}

/// The cue numbers a sequence knows after the cue branch ran.
pub open spec fn post_cue_numbers(pre: Seq<Seq<char>>, args: Seq<ArgV>) -> Seq<Seq<char>> {
    match cue_slug_of(args) {
        Option::Some(slug) => match parse_cue_info_spec(slug) {
            Result::Ok(info) => if pre.contains(info.number) {
                pre
            } else {
                pre.push(info.number)
            },
            Result::Err(e) => pre,
        },
        Option::None => pre,
    }
}

/// The fader keys a sequence owns after the fader branch ran.
pub open spec fn post_fader_keys(
    id: i32,
    pre: Seq<Seq<char>>,
    function: Seq<char>,
    args: Seq<ArgV>,
) -> Seq<Seq<char>> {
    if fader_prefix().is_prefix_of(function) && args.len() >= 3 && args[2] is Float {
        let key = fader_key(id, function);
        if pre.contains(key) {
            pre
        } else {
            pre.push(key)
        }
    } else {
        pre
    }
}

/// The whole plan of a handled message: sequence creation, the cue branch,
/// then the fader branch.
pub open spec fn dispatch_steps(
    id: i32,
    known: bool,
    pre_cues: Seq<Seq<char>>,
    pre_faders: Seq<Seq<char>>,
    function: Seq<char>,
    args: Seq<ArgV>,
) -> Seq<StepV> {
    remote_steps(creation_action_views(known, id)) + cue_branch_steps(id, pre_cues, function, args)
        + remote_steps(fader_action_views(id, pre_faders, function, args))
}

/// The cue numbers of the sequence with this id, before dispatch; a sequence
/// not yet registered knows none.
pub open spec fn pre_cues_of(r: SequenceRegistry, id: i32) -> Seq<Seq<char>> {
    if registry_ids(r).contains(id) {
        cue_numbers(r.sequences@[seq_index_of(r, id)])
    } else {
        Seq::<Seq<char>>::empty()
    }
}

/// The fader keys of the sequence with this id, before dispatch.
pub open spec fn pre_faders_of(r: SequenceRegistry, id: i32) -> Seq<Seq<char>> {
    if registry_ids(r).contains(id) {
        fader_keys(r.sequences@[seq_index_of(r, id)])
    } else {
        Seq::<Seq<char>>::empty()
    }
}

/// Dispatches one decoded message against the registry: validates the
/// address, matches it against the pattern, extracts the sequence id, looks
/// the sequence up (creating it on first sighting), and runs the cue branch
/// and the fader branch as independent best-effort attempts. Returns the
/// disposition with the ordered plan the caller must perform.
pub fn dispatch_message(registry: &mut SequenceRegistry, pattern: &str, m: &Message) -> (r:
    Disposition)
    requires
        registry_wf(*old(registry)),
    ensures
        registry_wf(*final(registry)),
        !osc_addr_ok(m.addr@) ==> (r matches Disposition::Skipped(
            DropReason::InvalidAddress,
        )) && *final(registry) == *old(registry),
        osc_addr_ok(m.addr@) && !osc_pattern_ok(pattern@) ==> (r matches Disposition::Skipped(
            DropReason::PatternInvalid,
        )) && *final(registry) == *old(registry),
        osc_addr_ok(m.addr@) && osc_pattern_ok(pattern@) && !addr_matches(pattern@, m.addr@) ==> (
        r matches Disposition::Skipped(DropReason::Unmatched)) && *final(registry) == *old(
            registry,
        ),
        matched(pattern@, m@) && msg_seq_id(m@) is None ==> (r matches Disposition::Skipped(
            DropReason::BadSequenceId,
        )) && *final(registry) == *old(registry),
        matched(pattern@, m@) && msg_seq_id(m@) is Some ==> {
            let id = msg_seq_id(m@)->0;
            let known = registry_ids(*old(registry)).contains(id);
            &&& registry_ids(*final(registry)).contains(id)
            &&& registry_ids(*final(registry)) == (if known {
                registry_ids(*old(registry))
            } else {
                registry_ids(*old(registry)).push(id)
            })
            &&& (forall|k: int|
                0 <= k < old(registry).sequences@.len() && old(registry).sequences@[k].id != id
                    ==> final(registry).sequences@[k] == old(registry).sequences@[k])
            &&& cue_numbers(final(registry).sequences@[seq_index_of(*final(registry), id)]) == (
            if message_function(arg_views(m.args@)) is Some {
                post_cue_numbers(pre_cues_of(*old(registry), id), arg_views(m.args@))
            } else {
                pre_cues_of(*old(registry), id)
            })
            &&& fader_keys(final(registry).sequences@[seq_index_of(*final(registry), id)]) == (
            if message_function(arg_views(m.args@)) is Some {
                post_fader_keys(
                    id,
                    pre_faders_of(*old(registry), id),
                    message_function(arg_views(m.args@))->0,
                    arg_views(m.args@),
                )
            } else {
                pre_faders_of(*old(registry), id)
            })
        },
        matched(pattern@, m@) && msg_seq_id(m@) is Some && message_function(arg_views(m.args@))
            is None ==> (r matches Disposition::NoFunction { steps } && step_views(steps@)
            == remote_steps(
            creation_action_views(
                registry_ids(*old(registry)).contains(msg_seq_id(m@)->0),
                msg_seq_id(m@)->0,
            ),
        )),
        matched(pattern@, m@) && msg_seq_id(m@) is Some && message_function(arg_views(m.args@))
            is Some ==> (r matches Disposition::Handled { steps, cue_error, fader_error }
            && step_views(steps@) == dispatch_steps(
            msg_seq_id(m@)->0,
            registry_ids(*old(registry)).contains(msg_seq_id(m@)->0),
            pre_cues_of(*old(registry), msg_seq_id(m@)->0),
            pre_faders_of(*old(registry), msg_seq_id(m@)->0),
            message_function(arg_views(m.args@))->0,
            arg_views(m.args@),
        ) && cue_error == cue_error_of(arg_views(m.args@)) && fader_error == fader_error_of(
            message_function(arg_views(m.args@))->0,
            arg_views(m.args@),
        )),
{
    if !osc_address_valid(m.addr.as_str()) {
        return Disposition::Skipped(DropReason::InvalidAddress);
    }
    let matched_now = match match_osc_pattern(pattern, m.addr.as_str()) {
        Some(b) => b,
        None => {
            return Disposition::Skipped(DropReason::PatternInvalid);
        },
    };
    if !matched_now {
        return Disposition::Skipped(DropReason::Unmatched);
    }
    let segment = trailing_segment(m.addr.as_str());
    let id = match parse_i32(segment.as_str()) {
        Some(v) => v,
        None => {
            return Disposition::Skipped(DropReason::BadSequenceId);
        },
    };
    let ghost known: bool = registry_ids(*old(registry)).contains(id);
    let (idx, created) = registry.get_or_create(id);
    let ghost reg1: SequenceRegistry = *registry;
    proof {
        lemma_seq_index_of(reg1, id, idx as int);
        if known {
            lemma_seq_index_of(*old(registry), id, idx as int);
        } else {
            assert(cue_numbers(reg1.sequences@[idx as int]) =~= pre_cues_of(*old(registry), id));
            assert(fader_keys(reg1.sequences@[idx as int]) =~= pre_faders_of(*old(registry), id));
        }
        assert(action_views(created@) =~= creation_action_views(known, id));
    }
    let mut steps: Vec<Step> = Vec::new();
    proof {
        assert(step_views(steps@) =~= Seq::<StepV>::empty());
        assert(Seq::<StepV>::empty() + remote_steps(action_views(created@)) =~= remote_steps(
            action_views(created@),
        ));
    }
    append_remote(&mut steps, created);
    let function: &String = if m.args.len() > 0 {
        match &m.args[0] {
            OscArg::Str(s) => s,
            _ => {
                proof {
                    assert(arg_views(m.args@)[0] == m.args@[0]@);
                    assert(message_function(arg_views(m.args@)) is None);
                }
                return Disposition::NoFunction { steps };
            },
        }
    } else {
        proof {
            assert(arg_views(m.args@).len() == m.args@.len());
            assert(message_function(arg_views(m.args@)) is None);
        }
        return Disposition::NoFunction { steps };
    };
    proof {
        assert(arg_views(m.args@)[0] == m.args@[0]@);
        assert(message_function(arg_views(m.args@)) == Some(function@));
    }
    proof {
        assert(seq_wf(reg1.sequences@[idx as int]));
    }
    let mut sequence = registry.sequences.remove(idx);
    let cue_res = handle_cues(function, &m.args, &mut sequence);
    let fader_res = sequence.process_fader(function, &m.args);
    let ghost s2: Sequence = sequence;
    registry.sequences.insert(idx, sequence);
    proof {
        assert(registry.sequences@ =~= reg1.sequences@.update(idx as int, s2));
        assert(registry_ids(*registry) =~= registry_ids(reg1));
        assert forall|a: int, b: int|
            0 <= a < b < registry_ids(*registry).len() implies registry_ids(*registry)[a]
            != registry_ids(*registry)[b] by {
            assert(registry_ids(*registry)[a] == registry_ids(reg1)[a]);
            assert(registry_ids(*registry)[b] == registry_ids(reg1)[b]);
        }
        assert forall|k: int|
            0 <= k < registry.sequences@.len() implies seq_wf(
                #[trigger] registry.sequences@[k],
            ) by {
            if k != idx as int {
                assert(registry.sequences@[k] == reg1.sequences@[k]);
                assert(seq_wf(reg1.sequences@[k]));
            }
        }
        lemma_seq_index_of(*registry, id, idx as int);
    }
    let cue_error: Option<BridgeError> = match cue_res {
        Ok(cue_plan) => {
            append_steps(&mut steps, cue_plan);
            None
        },
        Err(e) => {
            proof {
                let ghost mid = step_views(steps@);
                assert(cue_branch_steps(id, pre_cues_of(*old(registry), id), function@, arg_views(m.args@))
                    =~= Seq::<StepV>::empty());
                assert(mid + Seq::<StepV>::empty() =~= mid);
            }
            Some(e)
        },
    };
    let fader_error: Option<BridgeError> = match fader_res {
        Ok(fader_actions) => {
            proof {
                assert(action_views(fader_actions@) =~= fader_action_views(
                    id,
                    pre_faders_of(*old(registry), id),
                    function@,
                    arg_views(m.args@),
                ));
            }
            append_remote(&mut steps, fader_actions);
            None
        },
        Err(e) => {
            proof {
                let ghost mid = step_views(steps@);
                assert(fader_action_views(id, pre_faders_of(*old(registry), id), function@, arg_views(m.args@))
                    =~= Seq::<ActionV>::empty());
                assert(remote_steps(Seq::<ActionV>::empty()) =~= Seq::<StepV>::empty());
                assert(mid + Seq::<StepV>::empty() =~= mid);
            }
            Some(e)
        },
    };
    proof {
        assert(step_views(steps@) =~= dispatch_steps(
            id,
            known,
            pre_cues_of(*old(registry), id),
            pre_faders_of(*old(registry), id),
            function@,
            arg_views(m.args@),
        ));
    }
    Disposition::Handled { steps, cue_error, fader_error }
}

/// Handles one inbound datagram: decodes it, flattens its bundles, and
/// dispatches every message in order. Malformed bytes are reported as a
/// decode error and change nothing; otherwise one disposition is returned
/// per flattened message.
pub fn handle_datagram(registry: &mut SequenceRegistry, pattern: &str, buf: &[u8]) -> (r: Result<
    Vec<Disposition>,
    BridgeError,
>)
    requires
        registry_wf(*old(registry)),
    ensures
        registry_wf(*final(registry)),
        r matches Err(e) ==> e == BridgeError::DecodeError && crate::osc::osc_decoded(buf@)
            is None && *final(registry) == *old(registry),
        r matches Ok(dispositions) ==> crate::osc::osc_decoded(buf@) is Some
            && dispositions@.len() == crate::osc::flatten_views(
            crate::osc::osc_decoded(buf@)->0,
        ).len(),
{
    let packet = match crate::osc::decode_datagram(buf) {
        Ok(p) => p,
        Err(e) => {
            return Err(e);
        },
    };
    let messages = crate::osc::extract_osc_messages(&packet);
    let mut dispositions: Vec<Disposition> = Vec::new();
    let n = messages.len();
    let mut i: usize = 0;
    while i < n
        invariant
            0 <= i <= n,
            n == messages@.len(),
            registry_wf(*registry),
            dispositions@.len() == i,
        decreases n - i,
    {
        let d = dispatch_message(registry, pattern, &messages[i]);
        dispositions.push(d);
        i += 1;
    }
    Ok(dispositions)
}

} // verus!
