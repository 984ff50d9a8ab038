//! What has to be in place before the pool can serve: enough funds, and a proof account, which is
//! opened if there is none. The steps that talk to the chain are taken outside; `Startup` says
//! which one is next, and is told how it went.
use vstd::prelude::*;

use crate::round::Proof;

verus! {

/// The least that the wallet has to hold, in lamports.
pub const MIN_BALANCE: u64 = 1_000_000;

/// Why the pool cannot serve.
#[derive(Clone, Copy, Debug, PartialEq, Eq)]
pub enum StartupError {
    BalanceUnknown,
    BalanceTooLow,
    AccountNotCreated,
    NewProofMissing,
}

/// What is waited for.
#[derive(Clone, Copy, Debug, PartialEq, Eq)]
pub enum Startup {
    /// The balance of the wallet.
    Balance,
    /// The proof account.
    FirstLoad,
    /// The latest blockhash, to open a proof account with.
    Blockhash,
    /// The transaction that opens the account.
    Registration,
    /// The proof account that was to be opened.
    SecondLoad,
    /// Nothing: the pool can serve, or it cannot.
    Over,
}

/// What has happened.
#[derive(Clone, Copy, Debug, PartialEq, Eq)]
pub enum StartupEvent {
    /// The balance was read, or not.
    Balance(Option<u64>),
    /// The proof was loaded, or not.
    Loaded(Option<Proof>),
    /// The blockhash was fetched, or not.
    Blockhash(bool),
    /// The transaction was confirmed, or not.
    Registered(bool),
}

/// What is to be done next.
#[derive(Clone, Copy, Debug, PartialEq, Eq)]
pub enum StartupAction {
    LoadProof,
    FetchBlockhash,
    Register,
    Serve(Proof),
    Fail(StartupError),
}

impl StartupError {
    /// The error in words.
    pub fn message(&self) -> (r: String)
        ensures
            r@ == match *self {
                StartupError::BalanceUnknown => "Failed to load balance"@,
                StartupError::BalanceTooLow => "Sol balance is too low!"@,
                StartupError::AccountNotCreated => "Failed to create proof account"@,
                StartupError::NewProofMissing => "Failed to get newly created proof"@,
            },
    {
        match self {
            StartupError::BalanceUnknown => "Failed to load balance".to_owned(),
            StartupError::BalanceTooLow => "Sol balance is too low!".to_owned(),
            StartupError::AccountNotCreated => "Failed to create proof account".to_owned(),
            StartupError::NewProofMissing => "Failed to get newly created proof".to_owned(),
        }
    }
}

/// What follows an event: the wallet has to hold enough; a proof that is there is served; and
/// where there is none an account is opened, after which there has to be one. Without a blockhash
/// none is opened, and the account is looked for again all the same.
pub open spec fn startup_next(state: Startup, event: StartupEvent) -> (Startup, StartupAction) {
    match (state, event) {
        (Startup::Balance, StartupEvent::Balance(Some(balance))) => if balance < MIN_BALANCE {
            (Startup::Over, StartupAction::Fail(StartupError::BalanceTooLow))
        } else {
            (Startup::FirstLoad, StartupAction::LoadProof)
        },
        (Startup::Balance, StartupEvent::Balance(None)) => (
            Startup::Over,
            StartupAction::Fail(StartupError::BalanceUnknown),
        ),
        (Startup::FirstLoad, StartupEvent::Loaded(Some(loaded))) => (
            Startup::Over,
            StartupAction::Serve(loaded),
        ),
        (Startup::FirstLoad, StartupEvent::Loaded(None)) => (
            Startup::Blockhash,
            StartupAction::FetchBlockhash,
        ),
        (Startup::Blockhash, StartupEvent::Blockhash(true)) => (
            Startup::Registration,
            StartupAction::Register,
        ),
        (Startup::Blockhash, StartupEvent::Blockhash(false)) => (
            Startup::SecondLoad,
            StartupAction::LoadProof,
        ),
        (Startup::Registration, StartupEvent::Registered(true)) => (
            Startup::SecondLoad,
            StartupAction::LoadProof,
        ),
        (Startup::Registration, StartupEvent::Registered(false)) => (
            Startup::Over,
            StartupAction::Fail(StartupError::AccountNotCreated),
        ),
        (Startup::SecondLoad, StartupEvent::Loaded(Some(loaded))) => (
            Startup::Over,
            StartupAction::Serve(loaded),
        ),
        _ => (Startup::Over, StartupAction::Fail(StartupError::NewProofMissing)),
    }
}

impl Startup {
    /// Whether the event is the one waited for.
    pub open spec fn expects(self, event: StartupEvent) -> bool {
        match self {
            Startup::Balance => event is Balance,
            Startup::FirstLoad => event is Loaded,
            Startup::Blockhash => event is Blockhash,
            Startup::Registration => event is Registered,
            Startup::SecondLoad => event is Loaded,
            Startup::Over => false,
        }
    }

    /// The start: the balance of the wallet is waited for.
    pub fn new() -> (r: Startup)
        ensures
            r == Startup::Balance,
    {
        Startup::Balance
    }

    /// Tells whether the event is the one waited for.
    pub fn awaits(&self, event: &StartupEvent) -> (r: bool)
        ensures
            r == self.expects(*event),
    {
        match (self, event) {
            (Startup::Balance, StartupEvent::Balance(_)) => true,
            (Startup::FirstLoad, StartupEvent::Loaded(_)) => true,
            (Startup::Blockhash, StartupEvent::Blockhash(_)) => true,
            (Startup::Registration, StartupEvent::Registered(_)) => true,
            (Startup::SecondLoad, StartupEvent::Loaded(_)) => true,
            _ => false,
        }
    }

    /// Takes note of an event and says what to do next.
    pub fn step(&mut self, event: StartupEvent) -> (action: StartupAction)
        requires
            old(self).expects(event),
        ensures
            (*final(self), action) == startup_next(*old(self), event),
    {
        match (*self, event) {
            (Startup::Balance, StartupEvent::Balance(Some(balance))) => {
                if balance < MIN_BALANCE {
                    *self = Startup::Over;
                    StartupAction::Fail(StartupError::BalanceTooLow)
                } else {
                    *self = Startup::FirstLoad;
                    StartupAction::LoadProof
                }
            },
            (Startup::Balance, StartupEvent::Balance(None)) => {
                *self = Startup::Over;
                StartupAction::Fail(StartupError::BalanceUnknown)
            },
            (Startup::FirstLoad, StartupEvent::Loaded(None)) => {
                *self = Startup::Blockhash;
                StartupAction::FetchBlockhash
            },
            (Startup::Blockhash, StartupEvent::Blockhash(true)) => {
                *self = Startup::Registration;
                StartupAction::Register
            },
            (Startup::Blockhash, StartupEvent::Blockhash(false)) => {
                *self = Startup::SecondLoad;
                StartupAction::LoadProof
            },
            (Startup::Registration, StartupEvent::Registered(true)) => {
                *self = Startup::SecondLoad;
                StartupAction::LoadProof
            },
            (Startup::Registration, StartupEvent::Registered(false)) => {
                *self = Startup::Over;
                StartupAction::Fail(StartupError::AccountNotCreated)
            },
            (Startup::FirstLoad, StartupEvent::Loaded(Some(loaded))) => {
                *self = Startup::Over;
                StartupAction::Serve(loaded)
            },
            (Startup::SecondLoad, StartupEvent::Loaded(Some(loaded))) => {
                *self = Startup::Over;
                StartupAction::Serve(loaded)
            },
            _ => {
                *self = Startup::Over;
                StartupAction::Fail(StartupError::NewProofMissing)
            },
        }
    }
}

/// The state after a series of events.
pub open spec fn startup_after(events: Seq<StartupEvent>) -> Startup
    decreases events.len(),
{
    if events.len() == 0 {
        Startup::Balance
    } else {
        startup_next(startup_after(events.drop_last()), events.last()).0
    }
}

/// Whether every event of a series was waited for when it came.
pub open spec fn startup_regular(events: Seq<StartupEvent>) -> bool
    decreases events.len(),
{
    events.len() == 0 || {
        &&& startup_regular(events.drop_last())
        &&& startup_after(events.drop_last()).expects(events.last())
    }
}

/// The balance decides first: from a thousandth of a SOL on the proof is loaded, below that or
/// without a balance startup fails.
pub proof fn law_balance_decides(answer: Option<u64>)
    ensures
        ({
            let (after, action) = startup_next(Startup::Balance, StartupEvent::Balance(answer));
            match answer {
                None => after is Over && action == StartupAction::Fail(StartupError::BalanceUnknown),
                Some(balance) => if balance >= 1_000_000 {
                    after is FirstLoad && action is LoadProof
                } else {
                    after is Over && action == StartupAction::Fail(StartupError::BalanceTooLow)
                },
            }
        }),
{
}

/// A proof that can be loaded, at the first attempt or the second, is the one served. Without one a
/// blockhash is fetched after the first attempt, and startup fails after the second.
pub proof fn law_loaded_proof_is_served(answer: Option<Proof>)
    ensures
        ({
            let (after1, action1) = startup_next(Startup::FirstLoad, StartupEvent::Loaded(answer));
            let (after2, action2) = startup_next(Startup::SecondLoad, StartupEvent::Loaded(answer));
            match answer {
                Some(loaded) => {
                    &&& after1 is Over && action1 == StartupAction::Serve(loaded)
                    &&& after2 is Over && action2 == StartupAction::Serve(loaded)
                },
                None => {
                    &&& after1 is Blockhash && action1 is FetchBlockhash
                    &&& after2 is Over && action2 == StartupAction::Fail(
                        StartupError::NewProofMissing,
                    )
                },
            }
        }),
{
}

/// With a blockhash an account is opened, and without one the proof is looked for again; it is also
/// looked for once the account is open, and startup fails where it could not be opened.
pub proof fn law_account_is_opened(done: bool)
    ensures
        ({
            let (after1, action1) = startup_next(Startup::Blockhash, StartupEvent::Blockhash(done));
            let (after2, action2) = startup_next(
                Startup::Registration,
                StartupEvent::Registered(done),
            );
            &&& done ==> after1 is Registration && action1 is Register
            &&& !done ==> after1 is SecondLoad && action1 is LoadProof
            &&& done ==> after2 is SecondLoad && action2 is LoadProof
            &&& !done ==> after2 is Over && action2 == StartupAction::Fail(
                StartupError::AccountNotCreated,
            )
        }),
{
}

/// At any time one kind of event is waited for, the answer to what was asked for last, and none
/// once startup is over.
pub proof fn law_startup_expects(state: Startup, event: StartupEvent)
    ensures
        event is Balance ==> (state.expects(event) <==> state is Balance),
        event is Loaded ==> (state.expects(event) <==> state is FirstLoad || state is SecondLoad),
        event is Blockhash ==> (state.expects(event) <==> state is Blockhash),
        event is Registered ==> (state.expects(event) <==> state is Registration),
{
}

/// The pool serves only with a proof that was loaded from the chain, and only after the wallet was
/// found to hold enough; and startup is over after five events.
pub proof fn law_startup(events: Seq<StartupEvent>)
    requires
        startup_regular(events),
    ensures
        events.len() <= 5,
        events.len() > 0 ==> {
            let action = startup_next(startup_after(events.drop_last()), events.last()).1;
            action matches StartupAction::Serve(loaded) ==> {
                &&& events.last() == StartupEvent::Loaded(Some(loaded))
                &&& events[0] matches StartupEvent::Balance(Some(balance)) && balance
                    >= MIN_BALANCE
            }
        },
{
    lemma_startup_depth(events);
    if events.len() > 0 {
        lemma_startup_depth(events.drop_last());
        let n = events.len() - 1;
        if n > 0 {
            assert(events.drop_last()[0] == events[0]);
        }
    }
}

/// How far startup has come after a series of events, and that it is past the balance only where
/// that was high enough.
proof fn lemma_startup_depth(events: Seq<StartupEvent>)
    requires
        startup_regular(events),
    ensures
        match startup_after(events) {
            Startup::Balance => events.len() == 0,
            Startup::FirstLoad => events.len() == 1,
            Startup::Blockhash => events.len() == 2,
            Startup::Registration => events.len() == 3,
            Startup::SecondLoad => 3 <= events.len() <= 4,
            Startup::Over => 1 <= events.len() <= 5,
        },
        !(startup_after(events) is Balance || startup_after(events) is Over) ==> (
        events[0] matches StartupEvent::Balance(Some(balance)) && balance >= MIN_BALANCE),
    decreases events.len(),
{
    if events.len() > 0 {
        lemma_startup_depth(events.drop_last());
        if events.len() > 1 {
            assert(events.drop_last()[0] == events[0]);
        }
    }
}

} // verus!
