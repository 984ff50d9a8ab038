//! Submitting the best solution to the chain: when it is done, how often it is tried, and what
//! happens to the round afterwards. The steps that talk to the chain and to the block engine are
//! taken outside; `Submitter` says which one is next, and is told how it went.
use vstd::prelude::*;

use crate::jito;
use crate::jito::BundleStatus;
use crate::round;
use crate::round::{Proof, Round};
use crate::solution;
use crate::solution::{Solution, MAX_DIFF, MIN_DIFF};

verus! {

/// How often a bundle is sent for one solution.
pub const MAX_BUNDLES: u32 = 3;

/// After so many further questions about a bundle it is given up.
pub const MAX_POLLS: u32 = 20;

/// How many seconds before a solution is due the submitter looks for one.
pub const SUBMIT_BUFFER: i64 = 0;

/// What the submitter waits for.
#[derive(Clone, Copy, Debug, PartialEq, Eq)]
pub enum Phase {
    /// The next look at the clock and at the best solution.
    Idle,
    /// The end of a pause, after which it is idle.
    Resting,
    /// The latest blockhash.
    AwaitingBlockhash,
    /// The answer to a bundle, the one of that number.
    Sending { bundle: u32 },
    /// The answer to a question about the bundle, after so many without success.
    Polling { bundle: u32, polls: u32 },
    /// The end of a pause between two such questions.
    BetweenPolls { bundle: u32, polls: u32 },
    /// The end of a pause before the bundle of the given number.
    BetweenBundles { next: u32 },
    /// The proof, after the last bundle was given up.
    Reloading,
    /// The new proof, after a bundle has landed.
    Settling,
    /// The end of a pause before the proof is asked for again.
    BetweenLoads,
}

/// What has happened.
#[derive(Debug, PartialEq, Eq)]
pub enum Event {
    /// So many seconds are left until a solution is due.
    Tick { cutoff: i64 },
    /// The pause is over.
    Woke,
    /// The blockhash was fetched, or not.
    Blockhash { fetched: bool },
    /// The block engine took the bundle under an id, or not.
    Sent { bundle_id: Option<String> },
    /// The block engine said what has become of the bundle, or did not answer.
    Status { statuses: Option<Vec<BundleStatus>> },
    /// The proof was loaded, or not.
    Loaded { proof: Option<Proof> },
}

/// How long a pause takes.
#[derive(Clone, Copy, Debug, PartialEq, Eq)]
pub enum Pause {
    Secs(u64),
    Millis(u64),
}

/// What a mined solution has brought, in the smallest unit of the token.
#[derive(Clone, Copy, Debug, PartialEq, Eq)]
pub struct MessageInternalMineSuccess {
    pub difficulty: u32,
    pub total_balance: u64,
    pub rewards: u64,
}

/// What is to be done next.
#[derive(Clone, Copy, Debug, PartialEq, Eq)]
pub enum Action {
    /// Look at the clock again.
    Again,
    /// Pause.
    Sleep(Pause),
    /// Make the instructions for the solution and fetch the latest blockhash.
    Prepare { solution: Solution, difficulty: u32 },
    /// Send the bundle.
    SendBundle,
    /// Ask what has become of the bundle.
    QueryStatus,
    /// Load the proof.
    LoadProof,
    /// Tell the clients what was earned, and look at the clock again.
    Announce(MessageInternalMineSuccess),
}

/// The state of a submission.
pub struct Submitter {
    phase: Phase,
    proof: Proof,
    difficulty: u32,
    bundle_id: String,
}

/// What a submission stands at: what it waits for, the proof and the difficulty that it is for,
/// and the id of the bundle sent last.
pub struct SubmitterView {
    pub phase: Phase,
    pub proof: Proof,
    pub difficulty: u32,
    pub bundle_id: Seq<char>,
}

impl View for Submitter {
    type V = SubmitterView;

    closed spec fn view(&self) -> SubmitterView {
        SubmitterView {
            phase: self.phase,
            proof: self.proof,
            difficulty: self.difficulty,
            bundle_id: self.bundle_id@,
        }
    }
}

/// Whether an answer says that the bundle is on the chain.
pub open spec fn confirms(statuses: Option<Vec<BundleStatus>>) -> bool {
    statuses matches Some(list) && jito::has_landed(list@)
}

impl SubmitterView {
    /// The same, waiting for something else.
    pub open spec fn at(self, phase: Phase) -> SubmitterView {
        SubmitterView { phase, ..self }
    }

    /// No more bundles and no more questions than there may be.
    pub open spec fn well_formed(self) -> bool {
        match self.phase {
            Phase::Sending { bundle } => bundle < MAX_BUNDLES,
            Phase::Polling { bundle, polls } => bundle < MAX_BUNDLES && polls <= MAX_POLLS,
            Phase::BetweenPolls { bundle, polls } => bundle < MAX_BUNDLES && 1 <= polls
                <= MAX_POLLS,
            Phase::BetweenBundles { next } => 1 <= next <= MAX_BUNDLES,
            _ => true,
        }
    }

    /// Whether the event is one that the submitter waits for, and one that it can deal with: a
    /// bundle on the chain has a transaction, and a new proof does not hold less than the old one.
    pub open spec fn expects(self, event: Event) -> bool {
        match (self.phase, event) {
            (Phase::Idle, Event::Tick { .. }) => true,
            (Phase::Resting, Event::Woke) => true,
            (Phase::AwaitingBlockhash, Event::Blockhash { .. }) => true,
            (Phase::Sending { .. }, Event::Sent { .. }) => true,
            (Phase::Polling { .. }, Event::Status { statuses }) => {
                confirms(statuses) ==> statuses->0@[0].transactions@.len() > 0
            },
            (Phase::BetweenPolls { .. }, Event::Woke) => true,
            (Phase::BetweenBundles { .. }, Event::Woke) => true,
            (Phase::Reloading, Event::Loaded { .. }) => true,
            (Phase::Settling, Event::Loaded { proof: answer }) => {
                answer matches Some(loaded) ==> loaded == self.proof || loaded.balance
                    >= self.proof.balance
            },
            (Phase::BetweenLoads, Event::Woke) => true,
            _ => false,
        }
    }
}

/// What is to be done while the submitter is idle: until a solution is due it rests; then it
/// submits the best one, if there is one.
pub open spec fn on_tick(s: SubmitterView, round: Round, cutoff: i64) -> (
    SubmitterView,
    Round,
    Action,
) {
    if cutoff > 0 {
        (s.at(Phase::Resting), round, Action::Sleep(Pause::Secs(cutoff as u64)))
    } else {
        match round.best.solution {
            None => (s, round, Action::Again),
            Some(solution) => {
                let difficulty = solution.difficulty() as u32;
                (
                    SubmitterView {
                        phase: Phase::AwaitingBlockhash,
                        proof: round.proof,
                        difficulty,
                        ..s
                    },
                    round,
                    Action::Prepare { solution, difficulty },
                )
            },
        }
    }
}

/// What follows an answer about a bundle.
pub open spec fn on_status(
    s: SubmitterView,
    bundle: u32,
    polls: u32,
    statuses: Option<Vec<BundleStatus>>,
) -> (SubmitterView, Action) {
    if confirms(statuses) {
        (s.at(Phase::Settling), Action::LoadProof)
    } else if polls < MAX_POLLS {
        (
            s.at(Phase::BetweenPolls { bundle, polls: (polls + 1) as u32 }),
            Action::Sleep(Pause::Secs(1)),
        )
    } else if bundle + 1 < MAX_BUNDLES {
        (
            s.at(Phase::BetweenBundles { next: (bundle + 1) as u32 }),
            Action::Sleep(Pause::Millis(500)),
        )
    } else {
        (s.at(Phase::Reloading), Action::LoadProof)
    }
}

/// What follows the attempt to load the proof after a bundle has landed: until the chain shows a
/// proof other than the one submitted for, it is loaded again; then the round begins anew.
pub open spec fn on_settled(s: SubmitterView, round: Round, answer: Option<Proof>) -> (
    SubmitterView,
    Round,
    Action,
) {
    match answer {
        Some(loaded) => if s.proof != loaded {
            (
                s.at(Phase::Idle),
                Round::fresh(loaded),
                Action::Announce(
                    MessageInternalMineSuccess {
                        difficulty: s.difficulty,
                        total_balance: loaded.balance,
                        rewards: (loaded.balance - s.proof.balance) as u64,
                    },
                ),
            )
        } else {
            (s, round, Action::LoadProof)
        },
        None => (s.at(Phase::BetweenLoads), round, Action::Sleep(Pause::Millis(500))),
    }
}

/// The state, the round and the action that follow an event. An event that is not waited for
/// changes nothing.
pub open spec fn next(s: SubmitterView, round: Round, event: Event) -> (
    SubmitterView,
    Round,
    Action,
) {
    match (s.phase, event) {
        (Phase::Idle, Event::Tick { cutoff }) => on_tick(s, round, cutoff),
        (Phase::Resting, Event::Woke) => (s.at(Phase::Idle), round, Action::Again),
        (Phase::AwaitingBlockhash, Event::Blockhash { fetched }) => if fetched {
            (s.at(Phase::Sending { bundle: 0 }), round, Action::SendBundle)
        } else {
            (s.at(Phase::Resting), round, Action::Sleep(Pause::Millis(1000)))
        },
        (Phase::Sending { bundle }, Event::Sent { bundle_id }) => match bundle_id {
            Some(id) => (
                SubmitterView {
                    phase: Phase::Polling { bundle, polls: 0 },
                    bundle_id: id@,
                    ..s
                },
                round,
                Action::QueryStatus,
            ),
            None => (
                s.at(Phase::BetweenBundles { next: (bundle + 1) as u32 }),
                round,
                Action::Sleep(Pause::Secs(3)),
            ),
        },
        (Phase::Polling { bundle, polls }, Event::Status { statuses }) => {
            let (after, action) = on_status(s, bundle, polls, statuses);
            (after, round, action)
        },
        (Phase::BetweenPolls { bundle, polls }, Event::Woke) => (
            s.at(Phase::Polling { bundle, polls }),
            round,
            Action::QueryStatus,
        ),
        (Phase::BetweenBundles { next }, Event::Woke) => if next < MAX_BUNDLES {
            (s.at(Phase::Sending { bundle: next }), round, Action::SendBundle)
        } else {
            (s.at(Phase::Idle), round, Action::Again)
        },
        (Phase::Reloading, Event::Loaded { proof: answer }) => (
            s.at(Phase::BetweenBundles { next: MAX_BUNDLES }),
            match answer {
                Some(loaded) => Round::fresh(loaded),
                None => round,
            },
            Action::Sleep(Pause::Millis(500)),
        ),
        (Phase::Settling, Event::Loaded { proof: answer }) => on_settled(s, round, answer),
        (Phase::BetweenLoads, Event::Woke) => (s.at(Phase::Settling), round, Action::LoadProof),
        _ => (s, round, Action::Again),
    }
}

impl Submitter {
    /// A submitter that has nothing to do yet.
    pub fn new(proof: Proof) -> (r: Submitter)
        ensures
            r@.well_formed(),
            r@ == (SubmitterView {
                phase: Phase::Idle,
                proof,
                difficulty: 0,
                bundle_id: Seq::<char>::empty(),
            }),
    {
        Submitter { phase: Phase::Idle, proof, difficulty: 0, bundle_id: String::new() }
    }

    /// What the submitter waits for.
    pub fn phase(&self) -> (r: Phase)
        ensures
            r == self@.phase,
    {
        self.phase
    }

    /// The id of the bundle sent last.
    pub fn bundle_id(&self) -> (r: String)
        ensures
            r@ == self@.bundle_id,
    {
        self.bundle_id.clone()
    }

    /// Tells whether the event is one that the submitter waits for and can deal with.
    pub fn awaits(&self, event: &Event) -> (r: bool)
        ensures
            r == self@.expects(*event),
    {
        match (self.phase, event) {
            (Phase::Idle, Event::Tick { .. }) => true,
            (Phase::Resting, Event::Woke) => true,
            (Phase::AwaitingBlockhash, Event::Blockhash { .. }) => true,
            (Phase::Sending { .. }, Event::Sent { .. }) => true,
            (Phase::Polling { .. }, Event::Status { statuses }) => match statuses {
                Some(list) => !jito::landed(list) || list[0].transactions.len() > 0,
                None => true,
            },
            (Phase::BetweenPolls { .. }, Event::Woke) => true,
            (Phase::BetweenBundles { .. }, Event::Woke) => true,
            (Phase::Reloading, Event::Loaded { .. }) => true,
            (Phase::Settling, Event::Loaded { proof: answer }) => match answer {
                Some(loaded) => *loaded == self.proof || loaded.balance >= self.proof.balance,
                None => true,
            },
            (Phase::BetweenLoads, Event::Woke) => true,
            _ => false,
        }
    }

    fn tick(&mut self, round: &Round, cutoff: i64) -> (action: Action)
        requires
            old(self)@.phase is Idle,
        ensures
            (final(self)@, *round, action) == on_tick(old(self)@, *round, cutoff),
            action matches Action::Prepare { solution, difficulty } ==> solution.difficulty()
                == difficulty <= MAX_DIFF,
    {
        if cutoff > 0 {
            self.phase = Phase::Resting;
            Action::Sleep(Pause::Secs(cutoff as u64))
        } else {
            match round.best.solution {
                None => Action::Again,
                Some(solution) => {
                    let difficulty: u32 = solution.reached_difficulty();
                    self.phase = Phase::AwaitingBlockhash;
                    self.proof = round.proof;
                    self.difficulty = difficulty;
                    Action::Prepare { solution, difficulty }
                },
            }
        }
    }

    fn answered(
        &mut self,
        bundle: u32,
        polls: u32,
        statuses: Option<Vec<BundleStatus>>,
    ) -> (action: Action)
        requires
            bundle < MAX_BUNDLES,
            polls <= MAX_POLLS,
        ensures
            (final(self)@, action) == on_status(old(self)@, bundle, polls, statuses),
    {
        let confirmed: bool = match &statuses {
            Some(list) => jito::landed(list),
            None => false,
        };
        if confirmed {
            self.phase = Phase::Settling;
            Action::LoadProof
        } else if polls < MAX_POLLS {
            self.phase = Phase::BetweenPolls { bundle, polls: polls + 1 };
            Action::Sleep(Pause::Secs(1))
        } else if bundle + 1 < MAX_BUNDLES {
            self.phase = Phase::BetweenBundles { next: bundle + 1 };
            Action::Sleep(Pause::Millis(500))
        } else {
            self.phase = Phase::Reloading;
            Action::LoadProof
        }
    }

    fn settle(&mut self, round: &mut Round, answer: Option<Proof>) -> (action: Action)
        requires
            old(self)@.phase is Settling,
            answer matches Some(loaded) ==> loaded == old(self)@.proof || loaded.balance >= old(
                self,
            )@.proof.balance,
        ensures
            (final(self)@, *final(round), action) == on_settled(old(self)@, *old(round), answer),
    {
        match answer {
            Some(loaded) => {
                if self.proof != loaded {
                    let rewards: u64 = loaded.balance - self.proof.balance;
                    round.restart(loaded);
                    self.phase = Phase::Idle;
                    Action::Announce(
                        MessageInternalMineSuccess {
                            difficulty: self.difficulty,
                            total_balance: loaded.balance,
                            rewards,
                        },
                    )
                } else {
                    Action::LoadProof
                }
            },
            None => {
                self.phase = Phase::BetweenLoads;
                Action::Sleep(Pause::Millis(500))
            },
        }
    }

    /// Takes note of an event, begins the round anew where that is due, and says what to do next.
    pub fn step(&mut self, round: &mut Round, event: Event) -> (action: Action)
        requires
            old(self)@.well_formed(),
            old(self)@.expects(event),
        ensures
            final(self)@.well_formed(),
            (final(self)@, *final(round), action) == next(old(self)@, *old(round), event),
            action matches Action::Prepare { solution, difficulty } ==> solution.difficulty()
                == difficulty <= MAX_DIFF,
            old(round).sound() ==> final(round).sound(),
    {
        match (self.phase, event) {
            (Phase::Idle, Event::Tick { cutoff }) => self.tick(round, cutoff),
            (Phase::Resting, Event::Woke) => {
                self.phase = Phase::Idle;
                Action::Again
            },
            (Phase::AwaitingBlockhash, Event::Blockhash { fetched }) => {
                if fetched {
                    self.phase = Phase::Sending { bundle: 0 };
                    Action::SendBundle
                } else {
                    self.phase = Phase::Resting;
                    Action::Sleep(Pause::Millis(1000))
                }
            },
            (Phase::Sending { bundle }, Event::Sent { bundle_id }) => match bundle_id {
                Some(id) => {
                    self.bundle_id = id;
                    self.phase = Phase::Polling { bundle, polls: 0 };
                    Action::QueryStatus
                },
                None => {
                    self.phase = Phase::BetweenBundles { next: bundle + 1 };
                    Action::Sleep(Pause::Secs(3))
                },
            },
            (Phase::Polling { bundle, polls }, Event::Status { statuses }) => self.answered(
                bundle,
                polls,
                statuses,
            ),
            (Phase::BetweenPolls { bundle, polls }, Event::Woke) => {
                self.phase = Phase::Polling { bundle, polls };
                Action::QueryStatus
            },
            (Phase::BetweenBundles { next }, Event::Woke) => {
                if next < MAX_BUNDLES {
                    self.phase = Phase::Sending { bundle: next };
                    Action::SendBundle
                } else {
                    self.phase = Phase::Idle;
                    Action::Again
                }
            },
            (Phase::Reloading, Event::Loaded { proof: answer }) => {
                if let Some(loaded) = answer {
                    round.restart(loaded);
                }
                self.phase = Phase::BetweenBundles { next: MAX_BUNDLES };
                Action::Sleep(Pause::Millis(500))
            },
            (Phase::Settling, Event::Loaded { proof: answer }) => self.settle(round, answer),
            (Phase::BetweenLoads, Event::Woke) => {
                self.phase = Phase::Settling;
                Action::LoadProof
            },
            _ => Action::Again,
        }
    }
}

/// What a series of events leads to, each of them met by the round as it stands at that time:
/// the actions, one for each event.
pub open spec fn actions(s: SubmitterView, inputs: Seq<(Event, Round)>) -> Seq<Action>
    decreases inputs.len(),
{
    if inputs.len() == 0 {
        Seq::empty()
    } else {
        let (after, _, action) = next(s, inputs[0].1, inputs[0].0);
        seq![action] + actions(after, inputs.drop_first())
    }
}

/// How often an action occurs.
pub open spec fn occurrences(list: Seq<Action>, action: Action) -> nat
    decreases list.len(),
{
    if list.len() == 0 {
        0
    } else {
        let rest = occurrences(list.drop_first(), action);
        if list[0] == action {
            rest + 1
        } else {
            rest
        }
    }
}

/// Whether a series of events holds no further look at the clock, so that it all belongs to one
/// submission.
pub open spec fn one_submission(inputs: Seq<(Event, Round)>) -> bool {
    forall|i: int| 0 <= i < inputs.len() ==> !((#[trigger] inputs[i]).0 is Tick)
}

/// How many bundles may still be sent in the submission under way.
pub open spec fn bundles_left(phase: Phase) -> nat {
    match phase {
        Phase::AwaitingBlockhash => MAX_BUNDLES as nat,
        Phase::Sending { bundle } => (MAX_BUNDLES - 1 - bundle) as nat,
        Phase::Polling { bundle, .. } => (MAX_BUNDLES - 1 - bundle) as nat,
        Phase::BetweenPolls { bundle, .. } => (MAX_BUNDLES - 1 - bundle) as nat,
        Phase::BetweenBundles { next } => (MAX_BUNDLES - next) as nat,
        _ => 0,
    }
}

/// How many questions about bundles may still be asked in the submission under way.
pub open spec fn queries_left(phase: Phase) -> nat {
    match phase {
        Phase::AwaitingBlockhash => 63,
        Phase::Sending { bundle } => (21 * (3 - bundle)) as nat,
        Phase::Polling { bundle, polls } => (20 - polls + 21 * (2 - bundle)) as nat,
        Phase::BetweenPolls { bundle, polls } => (21 - polls + 21 * (2 - bundle)) as nat,
        Phase::BetweenBundles { next } => (21 * (3 - next)) as nat,
        _ => 0,
    }
}

/// The submitter looks for a solution from the end of the minute after the last hash on, and no
/// earlier: exactly then what is left is no longer above zero.
pub proof fn law_due_after_a_minute(last_hash_at: i64, now: i64)
    requires
        0 <= last_hash_at,
        last_hash_at + 60 <= 0x7fff_ffff_ffff_ffff,
        0 <= now,
    ensures
        ({
            let due = round::clamp_i64(last_hash_at + round::HASH_INTERVAL);
            round::clamp_i64(round::clamp_i64(due - SUBMIT_BUFFER) - now) <= 0 <==> now
                >= last_hash_at + 60
        }),
{
}

/// An idle submitter submits whatever solution there is as soon as it is due, and however long it
/// has been due; it sleeps for exactly the time that is left before that; and when nothing is there
/// to submit it looks again. A submission is for the proof of the round at that time, and none of
/// this changes the round.
pub proof fn law_due_solution_is_submitted(s: SubmitterView, round: Round, cutoff: i64)
    requires
        s.phase is Idle,
    ensures
        ({
            let (after, round1, action) = next(s, round, Event::Tick { cutoff });
            &&& round1 == round
            &&& after.bundle_id == s.bundle_id
            &&& cutoff > 0 ==> {
                &&& action matches Action::Sleep(Pause::Secs(secs)) && secs == cutoff
                &&& after.phase is Resting
                &&& after.proof == s.proof && after.difficulty == s.difficulty
            }
            &&& cutoff <= 0 ==> match round.best.solution {
                Some(best) => {
                    &&& action matches Action::Prepare { solution, difficulty } && {
                        &&& solution == best
                        &&& difficulty == best.difficulty()
                    }
                    &&& after.phase is AwaitingBlockhash
                    &&& after.proof == round.proof
                    &&& after.difficulty == best.difficulty()
                },
                None => action is Again && after == s,
            }
        }),
{
    if let Some(best) = round.best.solution {
        solution::law_difficulty_bound(best);
    }
}

/// Whether there is a blockhash decides whether the first bundle is sent or the attempt is put off
/// for a second; the submission itself stays what it was.
pub proof fn law_blockhash_starts_sending(s: SubmitterView, round: Round, fetched: bool)
    requires
        s.phase is AwaitingBlockhash,
    ensures
        ({
            let (after, round1, action) = next(s, round, Event::Blockhash { fetched });
            &&& round1 == round
            &&& after.proof == s.proof && after.difficulty == s.difficulty && after.bundle_id
                == s.bundle_id
            &&& fetched ==> action is SendBundle && after.phase == (Phase::Sending { bundle: 0 })
            &&& !fetched ==> after.phase is Resting && (action matches Action::Sleep(
                Pause::Millis(millis),
            ) && millis == 1000)
        }),
{
}

/// A bundle that was taken is asked after at once, under the id that it was given, the count
/// beginning at zero. After one that was refused there is a pause of three seconds, and then the
/// next one is due.
pub proof fn law_sent_bundle_is_asked_after(
    s: SubmitterView,
    round: Round,
    bundle_id: Option<String>,
)
    requires
        s.phase is Sending,
        s.well_formed(),
    ensures
        ({
            let (after, round1, action) = next(s, round, Event::Sent { bundle_id });
            let number = s.phase->Sending_bundle;
            &&& round1 == round
            &&& after.proof == s.proof && after.difficulty == s.difficulty
            &&& match bundle_id {
                Some(id) => {
                    &&& action is QueryStatus
                    &&& after.bundle_id == id@
                    &&& after.phase matches Phase::Polling { bundle, polls } && bundle == number
                        && polls == 0
                },
                None => {
                    &&& action matches Action::Sleep(Pause::Secs(secs)) && secs == 3
                    &&& after.bundle_id == s.bundle_id
                    &&& after.phase matches Phase::BetweenBundles { next } && next == number + 1
                },
            }
        }),
{
}

/// A bundle has landed exactly when the first status in an answer says "confirmed": then the proof
/// is loaded. Otherwise the next question comes a second later, 20 times over; after that the next
/// of three bundles is due half a second later, and after the third the proof is loaded.
pub proof fn law_answer_is_heeded(
    s: SubmitterView,
    round: Round,
    statuses: Option<Vec<BundleStatus>>,
)
    requires
        s.phase is Polling,
        s.well_formed(),
    ensures
        ({
            let (after, round1, action) = next(s, round, Event::Status { statuses });
            let number = s.phase->Polling_bundle;
            let asked = s.phase->Polling_polls;
            let landed = statuses is Some && statuses->0@.len() > 0
                && statuses->0@[0].confirmation_status@ == "confirmed"@;
            &&& round1 == round
            &&& after.proof == s.proof && after.difficulty == s.difficulty && after.bundle_id
                == s.bundle_id
            &&& after.phase is Settling <==> landed
            &&& landed ==> action is LoadProof
            &&& !landed && asked < 20 ==> {
                &&& action matches Action::Sleep(Pause::Secs(secs)) && secs == 1
                &&& after.phase matches Phase::BetweenPolls { bundle, polls } && bundle == number
                    && polls == asked + 1
            }
            &&& !landed && asked == 20 && number < 2 ==> {
                &&& action matches Action::Sleep(Pause::Millis(millis)) && millis == 500
                &&& after.phase matches Phase::BetweenBundles { next } && next == number + 1
            }
            &&& !landed && asked == 20 && number == 2 ==> action is LoadProof && after.phase
                is Reloading
            &&& asked <= 20 && number <= 2
        }),
{
}

/// The end of a pause leads on to what the pause came before: the next question about the same
/// bundle, the next bundle, the next attempt to load the proof, or the next look at the clock.
pub proof fn law_pause_leads_on(s: SubmitterView, round: Round)
    ensures
        ({
            let (after, round1, action) = next(s, round, Event::Woke);
            &&& round1 == round
            &&& after.proof == s.proof && after.difficulty == s.difficulty && after.bundle_id
                == s.bundle_id
            &&& s.phase is Resting ==> action is Again && after.phase is Idle
            &&& s.phase matches Phase::BetweenPolls { bundle, polls } ==> {
                &&& action is QueryStatus
                &&& after.phase == Phase::Polling { bundle, polls }
            }
            &&& s.phase matches Phase::BetweenBundles { next } ==> if next < 3 {
                action is SendBundle && after.phase == (Phase::Sending { bundle: next })
            } else {
                action is Again && after.phase is Idle
            }
            &&& s.phase is BetweenLoads ==> action is LoadProof && after.phase is Settling
        }),
{
}

/// After the last bundle was given up, a proof that can be loaded begins the round anew with that
/// proof, without nonces given out and without a solution, and one that cannot leaves it as it is;
/// either way no further bundle is sent, and after half a second the submitter is idle.
pub proof fn law_giving_up_reloads(s: SubmitterView, round: Round, answer: Option<Proof>)
    requires
        s.phase is Reloading,
    ensures
        ({
            let (after, round1, action) = next(s, round, Event::Loaded { proof: answer });
            &&& action matches Action::Sleep(Pause::Millis(millis)) && millis == 500
            &&& after.phase matches Phase::BetweenBundles { next } && next == 3
            &&& after.proof == s.proof && after.difficulty == s.difficulty && after.bundle_id
                == s.bundle_id
            &&& match answer {
                Some(loaded) => {
                    &&& round1.proof == loaded
                    &&& round1.nonce == 0
                    &&& round1.best.solution is None
                    &&& round1.best.difficulty == 0
                },
                None => round1 == round,
            }
        }),
{
}

/// After a bundle has landed the proof is loaded until it is another one than that submitted for:
/// at once where it is still the same, and half a second later where it could not be loaded. Then
/// the round begins anew with it, and the clients are told the difficulty, the new balance, and by
/// how much it exceeds the old one.
pub proof fn law_landing_settles(s: SubmitterView, round: Round, answer: Option<Proof>)
    requires
        s.phase is Settling,
        answer is Some && answer->0 != s.proof ==> answer->0.balance >= s.proof.balance,
    ensures
        ({
            let (after, round1, action) = next(s, round, Event::Loaded { proof: answer });
            &&& after.proof == s.proof && after.difficulty == s.difficulty && after.bundle_id
                == s.bundle_id
            &&& answer is None ==> {
                &&& action matches Action::Sleep(Pause::Millis(millis)) && millis == 500
                &&& after.phase is BetweenLoads
                &&& round1 == round
            }
            &&& answer is Some && answer->0 == s.proof ==> {
                &&& action is LoadProof
                &&& after.phase is Settling
                &&& round1 == round
            }
            &&& answer is Some && answer->0 != s.proof ==> {
                &&& action matches Action::Announce(message) && {
                    &&& message.difficulty == s.difficulty
                    &&& message.total_balance == answer->0.balance
                    &&& message.rewards == answer->0.balance - s.proof.balance
                }
                &&& after.phase is Idle
                &&& round1.proof == answer->0
                &&& round1.nonce == 0
                &&& round1.best.solution is None
                &&& round1.best.difficulty == 0
            }
        }),
{
}

/// Which events a submitter takes: a look at the clock while it is idle, the end of a pause while it
/// pauses, and otherwise the answer to what it has asked for. Of the answers only two kinds are not
/// taken: that a bundle has landed, without a transaction; and a new proof that holds less.
pub proof fn law_expected_events(s: SubmitterView, event: Event)
    ensures
        event is Tick ==> (s.expects(event) <==> s.phase is Idle),
        event is Woke ==> (s.expects(event) <==> (s.phase is Resting || s.phase is BetweenPolls
            || s.phase is BetweenBundles || s.phase is BetweenLoads)),
        event is Blockhash ==> (s.expects(event) <==> s.phase is AwaitingBlockhash),
        event is Sent ==> (s.expects(event) <==> s.phase is Sending),
        event matches Event::Status { statuses } ==> (s.expects(event) <==> s.phase is Polling && !(
        statuses is Some && statuses->0@.len() > 0 && statuses->0@[0].confirmation_status@
            == "confirmed"@ && statuses->0@[0].transactions@.len() == 0)),
        event matches Event::Loaded { proof: answer } ==> (s.expects(event) <==> (s.phase
            is Reloading || (s.phase is Settling && !(answer is Some && answer->0 != s.proof
            && answer->0.balance < s.proof.balance)))),
{
}

/// Every step keeps within the bounds on bundles and questions, whatever happens.
pub proof fn law_step_keeps_bounds(s: SubmitterView, round: Round, event: Event)
    requires
        s.well_formed(),
    ensures
        next(s, round, event).0.well_formed(),
{
}

/// In one submission no more bundles are sent, and no more questions asked, than are left.
pub proof fn lemma_left_suffices(s: SubmitterView, inputs: Seq<(Event, Round)>)
    requires
        s.well_formed(),
        one_submission(inputs),
    ensures
        occurrences(actions(s, inputs), Action::SendBundle) <= bundles_left(s.phase),
        occurrences(actions(s, inputs), Action::QueryStatus) <= queries_left(s.phase),
    decreases inputs.len(),
{
    if inputs.len() > 0 {
        let (after, _, action) = next(s, inputs[0].1, inputs[0].0);
        let rest = inputs.drop_first();
        assert forall|i: int| 0 <= i < rest.len() implies !((#[trigger] rest[i]).0 is Tick) by {
            assert(rest[i] == inputs[i + 1]);
        }
        assert(!(inputs[0].0 is Tick));
        lemma_left_suffices(after, rest);
        assert(actions(s, inputs).drop_first() =~= actions(after, rest));
    }
}

/// For one solution three bundles are sent at most, and 63 questions asked about them at most:
/// 21 for each.
pub proof fn law_submission_is_bounded(
    s: SubmitterView,
    round: Round,
    cutoff: i64,
    inputs: Seq<(Event, Round)>,
)
    requires
        s.phase is Idle,
        one_submission(inputs),
    ensures
        ({
            let after = next(s, round, Event::Tick { cutoff }).0;
            &&& occurrences(actions(after, inputs), Action::SendBundle) <= MAX_BUNDLES
            &&& occurrences(actions(after, inputs), Action::QueryStatus) <= MAX_BUNDLES * (MAX_POLLS
                + 1)
        }),
{
    let after = next(s, round, Event::Tick { cutoff }).0;
    lemma_left_suffices(after, inputs);
}

/// How many steps there may still be until the submitter is idle or a bundle has landed.
pub open spec fn steps_left(phase: Phase) -> nat {
    match phase {
        Phase::Idle => 0,
        Phase::Resting => 1,
        Phase::BetweenLoads => 0,
        Phase::Settling => 0,
        Phase::BetweenBundles { next } => (1 + 50 * (3 - next)) as nat,
        Phase::Reloading => 2,
        Phase::Polling { bundle, polls } => (3 + 2 * (20 - polls) + 50 * (2 - bundle)) as nat,
        Phase::BetweenPolls { bundle, polls } => (4 + 2 * (20 - polls) + 50 * (2 - bundle)) as nat,
        Phase::Sending { bundle } => (50 * (3 - bundle)) as nat,
        Phase::AwaitingBlockhash => 151,
    }
}

/// A submission does not go on for ever: with every event that it waits for it comes closer to
/// being given up, unless a bundle has landed; and it begins with a bounded number of steps.
pub proof fn law_submission_ends(s: SubmitterView, round: Round, event: Event)
    requires
        s.well_formed(),
        s.expects(event),
        !(s.phase is Idle || s.phase is Settling || s.phase is BetweenLoads),
    ensures
        steps_left(next(s, round, event).0.phase) < steps_left(s.phase),
        steps_left(s.phase) <= 151,
{
}

/// The round is left as it is by every step but two, both of which load a proof: one after a
/// bundle has landed, with a proof other than the one submitted for, and one after the last
/// bundle was given up. Either begins the round anew with the proof loaded: no nonces are given
/// out, and there is no best solution.
pub proof fn law_round_restarts(s: SubmitterView, round: Round, event: Event)
    ensures
        next(s, round, event).1 != round ==> {
            &&& event matches Event::Loaded { proof: Some(loaded) }
            &&& s.phase is Reloading || (s.phase is Settling && loaded != s.proof)
            &&& next(s, round, event).1 == Round::fresh(loaded)
        },
        (event matches Event::Loaded { proof: Some(loaded) } && (s.phase is Reloading || (
        s.phase is Settling && loaded != s.proof))) ==> next(s, round, event).1 == Round::fresh(
            event->proof->0,
        ),
{
}

/// Only a solution that counts is submitted, and only when it is due: it is the best one, it
/// solves the challenge of the proof that the submission is for, and its difficulty is the one
/// noted for it.
pub proof fn law_submits_what_counts(s: SubmitterView, round: Round, event: Event)
    requires
        round.sound(),
    ensures
        next(s, round, event).1.sound(),
        next(s, round, event).2 matches Action::Prepare { solution, difficulty } ==> {
            &&& event matches Event::Tick { cutoff } && cutoff <= 0
            &&& round.best.solution == Some(solution)
            &&& solution.solves(round.proof.challenge@)
            &&& solution.difficulty() == difficulty == round.best.difficulty
            &&& difficulty >= MIN_DIFF
            &&& next(s, round, event).0.proof == round.proof
            &&& next(s, round, event).0.difficulty == difficulty
        },
{
}

/// Clients are told of earnings exactly when the chain shows a new proof after a bundle has
/// landed; what they are told is the difference of the two balances.
pub proof fn law_earnings(s: SubmitterView, round: Round, event: Event)
    requires
        s.expects(event),
    ensures
        next(s, round, event).2 is Announce <==> (s.phase is Settling && (
        event matches Event::Loaded { proof: Some(loaded) } && loaded != s.proof)),
        next(s, round, event).2 matches Action::Announce(message) ==> {
            &&& message.difficulty == s.difficulty
            &&& message.total_balance == event->proof->0.balance
            &&& s.proof.balance + message.rewards == message.total_balance
        },
{
}

} // verus!
