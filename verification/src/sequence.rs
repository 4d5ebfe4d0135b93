//! Per-sequence state: the cues a sequence knows, the fader emitters it has
//! provisioned, and the operations the dispatch loop drives. Every operation
//! is pure with respect to the outside world: it updates the in-memory state
//! and returns the remote-registry actions the caller must perform.

use vstd::prelude::*;

use crate::cue::{Cue, CueInfo};
use crate::error::BridgeError;
use crate::osc::{ArgV, OscArg};
use crate::text::{dec_str, i32_to_string, str_starts_with};

verus! {

/// The cue-movement operations a sequence supports.
#[derive(Debug, PartialEq, Eq, Structural)]
pub enum Movement {
    GoPlus,
    GoMinus,
    Goto,
    JumpForward,
    JumpBackward,
}

/// One remote-registry operation the caller must perform: provisioning a
/// target or emitter, renaming one, firing a momentary, or pushing a fader
/// level (carried as IEEE 754 bits).
#[derive(Debug)]
pub enum Action {
    ProvisionSequenceTarget { sequence_id: i32 },
    ProvisionCueTarget { sequence_id: i32, number: String, name: String },
    RenameSequence { sequence_id: i32, name: String },
    RenameCue { sequence_id: i32, number: String, name: String },
    TriggerMomentary { sequence_id: i32, number: String, movement: Movement },
    ProvisionFader { sequence_id: i32, key: String, function: String },
    UpdateFaderLevel { sequence_id: i32, key: String, level_bits: u32 },
}

/// The mathematical content of an `Action`.
pub enum ActionV {
    ProvisionSequenceTarget { sequence_id: i32 },
    ProvisionCueTarget { sequence_id: i32, number: Seq<char>, name: Seq<char> },
    RenameSequence { sequence_id: i32, name: Seq<char> },
    RenameCue { sequence_id: i32, number: Seq<char>, name: Seq<char> },
    TriggerMomentary { sequence_id: i32, number: Seq<char>, movement: Movement },
    ProvisionFader { sequence_id: i32, key: Seq<char>, function: Seq<char> },
    UpdateFaderLevel { sequence_id: i32, key: Seq<char>, level_bits: u32 },
}

impl View for Action {
    type V = ActionV;

    open spec fn view(&self) -> ActionV {
        match self {
            Action::ProvisionSequenceTarget { sequence_id } => ActionV::ProvisionSequenceTarget {
                sequence_id: *sequence_id,
            },
            Action::ProvisionCueTarget { sequence_id, number, name } => ActionV::ProvisionCueTarget {
                sequence_id: *sequence_id,
                number: number@,
                name: name@,
            },
            Action::RenameSequence { sequence_id, name } => ActionV::RenameSequence {
                sequence_id: *sequence_id,
                name: name@,
            },
            Action::RenameCue { sequence_id, number, name } => ActionV::RenameCue {
                sequence_id: *sequence_id,
                number: number@,
                name: name@,
            },
            Action::TriggerMomentary { sequence_id, number, movement } => ActionV::TriggerMomentary {
                sequence_id: *sequence_id,
                number: number@,
                movement: *movement,
            },
            Action::ProvisionFader { sequence_id, key, function } => ActionV::ProvisionFader {
                sequence_id: *sequence_id,
                key: key@,
                function: function@,
            },
            Action::UpdateFaderLevel { sequence_id, key, level_bits } => ActionV::UpdateFaderLevel {
                sequence_id: *sequence_id,
                key: key@,
                level_bits: *level_bits,
            },
        }
    }
}

/// The views of a run of actions.
pub open spec fn action_views(s: Seq<Action>) -> Seq<ActionV> {
    s.map_values(|a: Action| a@)
}

/// One live sequence: its stable numeric id, the cues it knows (keyed by cue
/// number, each number held at most once), and the fader-emitter keys it has
/// provisioned (each key held at most once).
pub struct Sequence {
    pub id: i32,
    pub cues: Vec<Cue>,
    pub faders: Vec<String>,
}

/// The cue numbers a sequence knows, in insertion order.
pub open spec fn cue_numbers(s: Sequence) -> Seq<Seq<char>> {
    s.cues@.map_values(|c: Cue| c.number@)
}

/// Whether the sequence knows a cue with this number.
pub open spec fn has_cue(s: Sequence, number: Seq<char>) -> bool {
    cue_numbers(s).contains(number)
}

/// The fader-emitter keys a sequence has provisioned, in insertion order.
pub open spec fn fader_keys(s: Sequence) -> Seq<Seq<char>> {
    s.faders@.map_values(|k: String| k@)
}

/// Whether the sequence has provisioned a fader emitter under this key.
pub open spec fn has_fader(s: Sequence, key: Seq<char>) -> bool {
    fader_keys(s).contains(key)
}

/// Well-formedness: cue numbers are distinct, and fader keys are distinct.
pub open spec fn seq_wf(s: Sequence) -> bool {
    &&& forall|i: int, j: int|
        0 <= i < j < cue_numbers(s).len() ==> cue_numbers(s)[i] != cue_numbers(s)[j]
    &&& forall|i: int, j: int|
        0 <= i < j < fader_keys(s).len() ==> fader_keys(s)[i] != fader_keys(s)[j]
}

/// The prefix a fader function name must carry.
pub open spec fn fader_prefix() -> Seq<char> {
    "Fader"@
}

/// The fader-emitter key for a function within a sequence: the sequence id in
/// decimal followed by the function name.
pub open spec fn fader_key(sequence_id: i32, function: Seq<char>) -> Seq<char> {
    dec_str(sequence_id as int) + function
}

impl Sequence {
    /// Creates the state for a newly sighted sequence id, knowing no cues and
    /// owning no fader emitters.
    pub fn new(seq_number: i32) -> (r: Sequence)
        ensures
            r.id == seq_number,
            cue_numbers(r).len() == 0,
            fader_keys(r).len() == 0,
            seq_wf(r),
    {
        let r = Sequence { id: seq_number, cues: Vec::new(), faders: Vec::new() };
        proof {
            assert(cue_numbers(r) =~= Seq::<Seq<char>>::empty());
            assert(fader_keys(r) =~= Seq::<Seq<char>>::empty());
        }
        r
    }

    /// The action that renames this sequence's remote target.
    pub fn rename(&self, name: String) -> (r: Action)
        ensures
            r@ == (ActionV::RenameSequence { sequence_id: self.id, name: name@ }),
    {
        Action::RenameSequence { sequence_id: self.id, name }
    }

    /// Finds the index of the cue with this number, if the sequence knows it.
    fn find_cue(&self, number: &String) -> (r: Option<usize>)
        ensures
            r matches Some(i) ==> i < self.cues@.len() && self.cues@[i as int].number@ == number@,
            r is None ==> !has_cue(*self, number@),
    {
        let n = self.cues.len();
        let mut i: usize = 0;
        while i < n
            invariant
                0 <= i <= n,
                n == self.cues@.len(),
                forall|k: int| 0 <= k < i ==> cue_numbers(*self)[k] != number@,
            decreases n - i,
        {
            if self.cues[i].number == *number {
                return Some(i);
            }
            assert(cue_numbers(*self)[i as int] == self.cues@[i as int].number@);
            i += 1;
        }
        None
    }

    /// Registers a cue under its number, idempotently: a number the sequence
    /// already knows leaves the state unchanged and asks for nothing; a new
    /// number adds one cue and asks the caller to provision its remote target
    /// and rename the sequence after the slug's sequence name.
    pub fn register_cue(&mut self, cue_info: &CueInfo) -> (r: Vec<Action>)
        requires
            seq_wf(*old(self)),
        ensures
            seq_wf(*final(self)),
            final(self).id == old(self).id,
            final(self).faders == old(self).faders,
            has_cue(*final(self), cue_info@.number),
            has_cue(*old(self), cue_info@.number) ==> *final(self) == *old(self) && r@.len() == 0,
            !has_cue(*old(self), cue_info@.number) ==> cue_numbers(*final(self)) == cue_numbers(
                *old(self),
            ).push(cue_info@.number) && action_views(r@) == seq![
                ActionV::ProvisionCueTarget {
                    sequence_id: old(self).id,
                    number: cue_info@.number,
                    name: cue_info@.name,
                },
                ActionV::RenameSequence {
                    sequence_id: old(self).id,
                    name: cue_info@.sequence_name,
                },
            ],
    {
        match self.find_cue(&cue_info.number) {
            Some(i) => {
                proof {
                    assert(cue_numbers(*self)[i as int] == cue_info@.number);
                }
                Vec::new()
            },
            None => {
                let cue = Cue::new(cue_info);
                self.cues.push(cue);
                let mut r: Vec<Action> = Vec::new();
                r.push(
                    Action::ProvisionCueTarget {
                        sequence_id: self.id,
                        number: cue_info.number.clone(),
                        name: cue_info.name.clone(),
                    },
                );
                let rename = self.rename(cue_info.sequence_name.clone());
                r.push(rename);
                proof {
                    assert(cue_numbers(*self) =~= cue_numbers(*old(self)).push(cue_info@.number));
                    assert(cue_numbers(*self).last() == cue_info@.number);
                    assert(fader_keys(*self) =~= fader_keys(*old(self)));
                    assert forall|a: int, b: int|
                        0 <= a < b < cue_numbers(*self).len() implies cue_numbers(*self)[a]
                        != cue_numbers(*self)[b] by {
                        assert(cue_numbers(*self)[a] == cue_numbers(*old(self))[a]);
                        if b < cue_numbers(*self).len() - 1 {
                            assert(cue_numbers(*self)[b] == cue_numbers(*old(self))[b]);
                        } else {
                            assert(cue_numbers(*old(self)).contains(cue_numbers(*old(self))[a]));
                        }
                    }
                    assert forall|a: int, b: int|
                        0 <= a < b < fader_keys(*self).len() implies fader_keys(*self)[a]
                        != fader_keys(*self)[b] by {
                        assert(fader_keys(*self)[a] == fader_keys(*old(self))[a]);
                        assert(fader_keys(*self)[b] == fader_keys(*old(self))[b]);
                    }
                    assert(action_views(r@) =~= seq![
                        ActionV::ProvisionCueTarget {
                            sequence_id: old(self).id,
                            number: cue_info@.number,
                            name: cue_info@.name,
                        },
                        ActionV::RenameSequence {
                            sequence_id: old(self).id,
                            name: cue_info@.sequence_name,
                        },
                    ]);
                }
                r
            },
        }
    }

    /// Looks the cue up by number; if the sequence knows it, renames the cue
    /// after the slug's display name and fires the movement's momentary.
    fn movement(&mut self, cue_info: CueInfo, movement: Movement) -> (r: Result<
        Vec<Action>,
        BridgeError,
    >)
        ensures
            *final(self) == *old(self),
            (r is Ok) == has_cue(*old(self), cue_info@.number),
            r matches Ok(a) ==> action_views(a@) == seq![
                ActionV::RenameCue {
                    sequence_id: old(self).id,
                    number: cue_info@.number,
                    name: cue_info@.name,
                },
                ActionV::TriggerMomentary {
                    sequence_id: old(self).id,
                    number: cue_info@.number,
                    movement,
                },
            ],
            r matches Err(e) ==> e == BridgeError::CueNotFound,
    {
        match self.find_cue(&cue_info.number) {
            None => Err(BridgeError::CueNotFound),
            Some(i) => {
                proof {
                    assert(cue_numbers(*self)[i as int] == cue_info@.number);
                }
                let mut r: Vec<Action> = Vec::new();
                r.push(
                    Action::RenameCue {
                        sequence_id: self.id,
                        number: cue_info.number.clone(),
                        name: cue_info.name.clone(),
                    },
                );
                r.push(
                    Action::TriggerMomentary {
                        sequence_id: self.id,
                        number: cue_info.number,
                        movement,
                    },
                );
                proof {
                    assert(action_views(r@) =~= seq![
                        ActionV::RenameCue {
                            sequence_id: old(self).id,
                            number: cue_info@.number,
                            name: cue_info@.name,
                        },
                        ActionV::TriggerMomentary {
                            sequence_id: old(self).id,
                            number: cue_info@.number,
                            movement,
                        },
                    ]);
                }
                Ok(r)
            },
        }
    }

    /// Advances the sequence on this cue. The cue must have been registered;
    /// an unknown number is rejected and nothing is asked of the caller.
    pub fn go_plus(&mut self, cue_info: CueInfo) -> (r: Result<Vec<Action>, BridgeError>)
        ensures
            *final(self) == *old(self),
            (r is Ok) == has_cue(*old(self), cue_info@.number),
            r matches Ok(a) ==> action_views(a@) == movement_action_views(
                *old(self),
                cue_info@,
                Movement::GoPlus,
            ),
            r matches Err(e) ==> e == BridgeError::CueNotFound,
    {
        self.movement(cue_info, Movement::GoPlus)
    }

    /// Retreats the sequence on this cue; an unknown number is rejected.
    pub fn go_minus(&mut self, cue_info: CueInfo) -> (r: Result<Vec<Action>, BridgeError>)
        ensures
            *final(self) == *old(self),
            (r is Ok) == has_cue(*old(self), cue_info@.number),
            r matches Ok(a) ==> action_views(a@) == movement_action_views(
                *old(self),
                cue_info@,
                Movement::GoMinus,
            ),
            r matches Err(e) ==> e == BridgeError::CueNotFound,
    {
        self.movement(cue_info, Movement::GoMinus)
    }

    /// Jumps the sequence to this cue; an unknown number is rejected.
    pub fn goto(&mut self, cue_info: CueInfo) -> (r: Result<Vec<Action>, BridgeError>)
        ensures
            *final(self) == *old(self),
            (r is Ok) == has_cue(*old(self), cue_info@.number),
            r matches Ok(a) ==> action_views(a@) == movement_action_views(
                *old(self),
                cue_info@,
                Movement::Goto,
            ),
            r matches Err(e) ==> e == BridgeError::CueNotFound,
    {
        self.movement(cue_info, Movement::Goto)
    }

    /// Skips forward from this cue; an unknown number is rejected.
    pub fn jump_forward(&mut self, cue_info: CueInfo) -> (r: Result<Vec<Action>, BridgeError>)
        ensures
            *final(self) == *old(self),
            (r is Ok) == has_cue(*old(self), cue_info@.number),
            r matches Ok(a) ==> action_views(a@) == movement_action_views(
                *old(self),
                cue_info@,
                Movement::JumpForward,
            ),
            r matches Err(e) ==> e == BridgeError::CueNotFound,
    {
        self.movement(cue_info, Movement::JumpForward)
    }

    /// Skips backward from this cue; an unknown number is rejected.
    pub fn jump_backward(&mut self, cue_info: CueInfo) -> (r: Result<Vec<Action>, BridgeError>)
        ensures
            *final(self) == *old(self),
            (r is Ok) == has_cue(*old(self), cue_info@.number),
            r matches Ok(a) ==> action_views(a@) == movement_action_views(
                *old(self),
                cue_info@,
                Movement::JumpBackward,
            ),
            r matches Err(e) ==> e == BridgeError::CueNotFound,
    {
        self.movement(cue_info, Movement::JumpBackward)
    }

    /// Processes one fader message: the function name must carry the fader
    /// prefix and the third argument must be a float level. The fader emitter
    /// keyed by the sequence id and function name is provisioned on first
    /// use, then updated with the new level.
    pub fn process_fader(&mut self, fader_function: &String, args: &Vec<OscArg>) -> (r: Result<
        Vec<Action>,
        BridgeError,
    >)
        requires
            seq_wf(*old(self)),
        ensures
            seq_wf(*final(self)),
            final(self).id == old(self).id,
            final(self).cues == old(self).cues,
            !fader_prefix().is_prefix_of(fader_function@) ==> r == Err::<Vec<Action>, BridgeError>(
                BridgeError::ArgumentError,
            ) && *final(self) == *old(self),
            fader_prefix().is_prefix_of(fader_function@) && !(args@.len() >= 3 && args@[2]@ is Float)
                ==> r == Err::<Vec<Action>, BridgeError>(BridgeError::ArgumentError) && *final(self)
                == *old(self),
            fader_prefix().is_prefix_of(fader_function@) && args@.len() >= 3 && (args@[2]@
                is Float) ==> {
                let key = fader_key(old(self).id, fader_function@);
                let bits = args@[2]@->Float_0;
                &&& r is Ok
                &&& has_fader(*final(self), key)
                &&& (has_fader(*old(self), key) ==> *final(self) == *old(self) && (r matches Ok(a)
                    && action_views(a@) == seq![
                    ActionV::UpdateFaderLevel {
                        sequence_id: old(self).id,
                        key,
                        level_bits: bits,
                    },
                ]))
                &&& (!has_fader(*old(self), key) ==> fader_keys(*final(self)) == fader_keys(
                    *old(self),
                ).push(key) && (r matches Ok(a) && action_views(a@) == seq![
                    ActionV::ProvisionFader {
                        sequence_id: old(self).id,
                        key,
                        function: fader_function@,
                    },
                    ActionV::UpdateFaderLevel {
                        sequence_id: old(self).id,
                        key,
                        level_bits: bits,
                    },
                ]))
            },
    {
        if !str_starts_with(fader_function.as_str(), "Fader") {
            proof {
                reveal_strlit("Fader");
            }
            return Err(BridgeError::ArgumentError);
        }
        proof {
            reveal_strlit("Fader");
        }
        if args.len() < 3 {
            return Err(BridgeError::ArgumentError);
        }
        let bits: u32 = match &args[2] {
            OscArg::Float(b) => *b,
            _ => {
                return Err(BridgeError::ArgumentError);
            },
        };
        let mut key = i32_to_string(self.id);
        key.append(fader_function.as_str());
        assert(key@ == fader_key(self.id, fader_function@));
        let mut r: Vec<Action> = Vec::new();
        if !self.has_fader_key(&key) {
            self.faders.push(key.clone());
            r.push(
                Action::ProvisionFader {
                    sequence_id: self.id,
                    key: key.clone(),
                    function: fader_function.clone(),
                },
            );
            proof {
                assert(fader_keys(*self) =~= fader_keys(*old(self)).push(key@));
                assert(fader_keys(*self).last() == key@);
            }
        }
        r.push(Action::UpdateFaderLevel { sequence_id: self.id, key, level_bits: bits });
        proof {
            assert(cue_numbers(*self) =~= cue_numbers(*old(self)));
            assert forall|a: int, b: int|
                0 <= a < b < cue_numbers(*self).len() implies cue_numbers(*self)[a]
                != cue_numbers(*self)[b] by {
                assert(cue_numbers(*self)[a] == cue_numbers(*old(self))[a]);
                assert(cue_numbers(*self)[b] == cue_numbers(*old(self))[b]);
            }
            assert forall|a: int, b: int|
                0 <= a < b < fader_keys(*self).len() implies fader_keys(*self)[a] != fader_keys(
                    *self,
                )[b] by {
                if has_fader(*old(self), fader_key(old(self).id, fader_function@)) {
                    assert(fader_keys(*self)[a] == fader_keys(*old(self))[a]);
                    assert(fader_keys(*self)[b] == fader_keys(*old(self))[b]);
                } else {
                    assert(fader_keys(*self)[a] == fader_keys(*old(self)).push(
                        fader_key(old(self).id, fader_function@),
                    )[a]);
                    assert(fader_keys(*self)[a] == fader_keys(*old(self))[a]);
                    if b < fader_keys(*self).len() - 1 {
                        assert(fader_keys(*self)[b] == fader_keys(*old(self))[b]);
                    } else {
                        assert(fader_keys(*old(self)).contains(fader_keys(*old(self))[a]));
                    }
                }
            }
            if has_fader(*old(self), fader_key(old(self).id, fader_function@)) {
                assert(action_views(r@) =~= seq![
                    ActionV::UpdateFaderLevel {
                        sequence_id: old(self).id,
                        key: fader_key(old(self).id, fader_function@),
                        level_bits: bits,
                    },
                ]);
            } else {
                assert(action_views(r@) =~= seq![
                    ActionV::ProvisionFader {
                        sequence_id: old(self).id,
                        key: fader_key(old(self).id, fader_function@),
                        function: fader_function@,
                    },
                    ActionV::UpdateFaderLevel {
                        sequence_id: old(self).id,
                        key: fader_key(old(self).id, fader_function@),
                        level_bits: bits,
                    },
                ]);
            }
        }
        Ok(r)
    }

    /// Whether a fader emitter with this key has been provisioned.
    fn has_fader_key(&self, key: &String) -> (r: bool)
        ensures
            r == has_fader(*self, key@),
    {
        let n = self.faders.len();
        let mut i: usize = 0;
        while i < n
            invariant
                0 <= i <= n,
                n == self.faders@.len(),
                forall|k: int| 0 <= k < i ==> fader_keys(*self)[k] != key@,
            decreases n - i,
        {
            if self.faders[i] == *key {
                assert(fader_keys(*self)[i as int] == key@);
                return true;
            }
            assert(fader_keys(*self)[i as int] == self.faders@[i as int]@);
            i += 1;
        }
        false
    }
}

/// The actions a successful cue movement asks of the caller: rename the cue
/// after its display name, then fire the movement's momentary.
pub open spec fn movement_action_views(s: Sequence, info: crate::cue::CueInfoV, m: Movement) -> Seq<
    ActionV,
> {
    seq![
        ActionV::RenameCue { sequence_id: s.id, number: info.number, name: info.name },
        ActionV::TriggerMomentary { sequence_id: s.id, number: info.number, movement: m },
    ]
}

/// The registry of live sequences: exactly one per distinct id observed,
/// created lazily and never removed.
pub struct SequenceRegistry {
    pub sequences: Vec<Sequence>,
}

/// The ids of the registered sequences, in creation order.
pub open spec fn registry_ids(r: SequenceRegistry) -> Seq<i32> {
    r.sequences@.map_values(|s: Sequence| s.id)
}

/// Well-formedness: ids are distinct and every sequence is well-formed.
pub open spec fn registry_wf(r: SequenceRegistry) -> bool {
    &&& forall|i: int, j: int|
        0 <= i < j < registry_ids(r).len() ==> registry_ids(r)[i] != registry_ids(r)[j]
    &&& forall|i: int| 0 <= i < r.sequences@.len() ==> seq_wf(#[trigger] r.sequences@[i])
}

impl SequenceRegistry {
    /// An empty registry.
    pub fn new() -> (r: SequenceRegistry)
        ensures
            registry_wf(r),
            r.sequences@.len() == 0,
    {
        let r = SequenceRegistry { sequences: Vec::new() };
        proof {
            assert(registry_ids(r) =~= Seq::<i32>::empty());
        }
        r
    }

    /// Looks the sequence up by id, creating it on first sighting. Returns
    /// its index and, for a new sequence, the action that provisions its
    /// remote target.
    pub fn get_or_create(&mut self, id: i32) -> (r: (usize, Vec<Action>))
        requires
            registry_wf(*old(self)),
        ensures
            registry_wf(*final(self)),
            r.0 < final(self).sequences@.len(),
            final(self).sequences@[r.0 as int].id == id,
            registry_ids(*old(self)).contains(id) ==> *final(self) == *old(self) && r.1@.len()
                == 0,
            !registry_ids(*old(self)).contains(id) ==> {
                &&& final(self).sequences@.len() == old(self).sequences@.len() + 1
                &&& final(self).sequences@.take(old(self).sequences@.len() as int) == old(
                    self,
                ).sequences@
                &&& final(self).sequences@.last().id == id
                &&& cue_numbers(final(self).sequences@.last()).len() == 0
                &&& fader_keys(final(self).sequences@.last()).len() == 0
                &&& action_views(r.1@) == seq![ActionV::ProvisionSequenceTarget { sequence_id: id }]
                &&& r.0 == old(self).sequences@.len()
            },
    {
        let n = self.sequences.len();
        let mut i: usize = 0;
        while i < n
            invariant
                0 <= i <= n,
                n == self.sequences@.len(),
                *self == *old(self),
                registry_wf(*old(self)),
                forall|k: int| 0 <= k < i ==> registry_ids(*self)[k] != id,
            decreases n - i,
        {
            if self.sequences[i].id == id {
                assert(registry_ids(*self)[i as int] == id);
                proof {
                    assert(registry_ids(*self).contains(id));
                    assert forall|k: int|
                        0 <= k < self.sequences@.len() implies seq_wf(
                            #[trigger] self.sequences@[k],
                        ) by {
                        assert(seq_wf(old(self).sequences@[k]));
                    }
                }
                return (i, Vec::new());
            }
            assert(registry_ids(*self)[i as int] == self.sequences@[i as int].id);
            i += 1;
        }
        let sequence = Sequence::new(id);
        self.sequences.push(sequence);
        proof {
            assert(self.sequences@.take(old(self).sequences@.len() as int) =~= old(
                self,
            ).sequences@);
        }
        let mut actions: Vec<Action> = Vec::new();
        actions.push(Action::ProvisionSequenceTarget { sequence_id: id });
        proof {
            assert(registry_ids(*self) =~= registry_ids(*old(self)).push(id));
            assert(action_views(actions@) =~= seq![
                ActionV::ProvisionSequenceTarget { sequence_id: id },
            ]);
            assert forall|a: int, b: int|
                0 <= a < b < registry_ids(*self).len() implies registry_ids(*self)[a]
                != registry_ids(*self)[b] by {
                assert(registry_ids(*self)[a] == registry_ids(*old(self))[a]);
                if b < registry_ids(*self).len() - 1 {
                    assert(registry_ids(*self)[b] == registry_ids(*old(self))[b]);
                } else {
                    assert(registry_ids(*old(self)).contains(registry_ids(*old(self))[a]));
                }
            }
            assert forall|k: int|
                0 <= k < self.sequences@.len() implies seq_wf(#[trigger] self.sequences@[k]) by {
                if k < self.sequences@.len() - 1 {
                    assert(self.sequences@[k] == old(self).sequences@[k]);
                    assert(seq_wf(old(self).sequences@[k]));
                } else {
                    assert(self.sequences@[k] == sequence);
                }
            }
        }
        (n, actions)
    }
}

} // verus!
