//! The transaction generator: it keeps a wallet busy with small payments
//! to addresses drawn at random, one payment at a time.

use vstd::prelude::*;
use rand::seq::IndexedRandom;
use crate::digest::PublicKey;

verus! {

/// How long the generator waits before its first payment, where it is
/// started with a delay: the network may not be ready. In milliseconds.
pub const WAIT_TIMEOUT: u64 = 15_000;

/// The amount of each payment.
pub const PAYMENT_AMOUNT: i64 = 1;

/// What the generator waits for.
#[derive(Clone, Copy, Debug, PartialEq, Eq, Structural)]
pub enum GeneratorState {
    /// Nothing: the next payment is due.
    CreateNew,
    /// The first change of the balance, which shows that the wallet is ready.
    NotInited,
    /// The answer of the wallet to a payment request.
    WaitForWallet,
    /// The change of the balance that confirms a payment.
    WaitForConfirmation,
}

/// The kinds of answer of a wallet.
#[derive(Clone, Copy, Debug, PartialEq, Eq, Structural)]
pub enum WalletResponse {
    TransactionCreated,
    Error,
    Other,
}

/// The kinds of notification of a wallet.
#[derive(Clone, Copy, Debug, PartialEq, Eq, Structural)]
pub enum WalletNotification {
    BalanceChanged,
    Other,
}

/// What a wallet sends to the generator.
#[derive(Clone, Copy, Debug, PartialEq, Eq, Structural)]
pub enum WalletEvent {
    /// The answer to a request.
    Response(WalletResponse),
    /// A notification.
    Notification(WalletNotification),
}

/// What the generator asks of its driver.
#[derive(Clone, Copy, Debug, PartialEq, Eq, Structural)]
pub enum GeneratorAction {
    /// Nothing.
    Idle,
    /// Subscribe to the notifications of the wallet.
    Subscribe,
    /// Request a payment of `PAYMENT_AMOUNT` to the recipient, with the
    /// comment `generator`.
    Pay { recipient: PublicKey },
}

/// The transaction generator.
#[derive(Debug)]
pub struct Generator {
    /// When the start delay ends, by the clock of the driver; nothing
    /// without delay or once the delay is over.
    pub timeout: Option<u64>,
    pub destinations: Vec<PublicKey>,
    pub state: GeneratorState,
}

/// `rand::seq::IndexedRandom::choose` on the destinations, with the
/// generator of the thread: one of the destinations, whichever; nothing of
/// an empty list.
#[verifier::external_body]
pub(crate) fn choose_destination(destinations: &Vec<PublicKey>) -> (r: Option<PublicKey>)
    ensures
        r is Some <==> destinations@.len() > 0,
        r matches Some(k) ==> destinations@.contains(k),
{
    destinations.choose(&mut rand::rng()).copied()
}

/// What the generator waits for after an event, where no payment is due:
/// an answer counts while it waits for the wallet, a notification while it
/// waits for the first or for a confirming change of the balance; any
/// other event is passed over.
pub open spec fn spec_step_state(state: GeneratorState, event: Option<WalletEvent>) -> GeneratorState {
    match (state, event) {
        (GeneratorState::WaitForWallet, Some(WalletEvent::Response(response))) => match response {
            WalletResponse::TransactionCreated => GeneratorState::WaitForConfirmation,
            WalletResponse::Error => GeneratorState::NotInited,
            WalletResponse::Other => GeneratorState::CreateNew,
        },
        (
            GeneratorState::WaitForConfirmation,
            Some(WalletEvent::Notification(WalletNotification::BalanceChanged)),
        ) => GeneratorState::CreateNew,
        (
            GeneratorState::NotInited,
            Some(WalletEvent::Notification(WalletNotification::BalanceChanged)),
        ) => GeneratorState::CreateNew,
        _ => state,
    }
}

/// What the generator asks of its driver after an event, where no payment
/// is due: to subscribe anew once the wallet has answered a request with a
/// transaction or an error; else nothing.
pub open spec fn spec_step_action(state: GeneratorState, event: Option<WalletEvent>) -> GeneratorAction {
    match (state, event) {
        (
            GeneratorState::WaitForWallet,
            Some(WalletEvent::Response(WalletResponse::TransactionCreated)),
        ) => GeneratorAction::Subscribe,
        (
            GeneratorState::WaitForWallet,
            Some(WalletEvent::Response(WalletResponse::Error)),
        ) => GeneratorAction::Subscribe,
        _ => GeneratorAction::Idle,
    }
}

impl Generator {
    /// Creates a generator that pays to the destinations. It begins by
    /// subscribing to the wallet. With a delay it does nothing before
    /// `WAIT_TIMEOUT` has passed since `now`.
    pub fn new(destinations: Vec<PublicKey>, with_delay: bool, now: u64) -> (r: Generator)
        requires
            destinations@.len() > 0,
        ensures
            r.destinations == destinations,
            r.state == GeneratorState::NotInited,
            r.timeout == if with_delay {
                Some(if now <= u64::MAX - WAIT_TIMEOUT {
                    (now + WAIT_TIMEOUT) as u64
                } else {
                    u64::MAX
                })
            } else {
                None
            },
    {
        let timeout = if with_delay {
            Some(if now <= u64::MAX - WAIT_TIMEOUT {
                now + WAIT_TIMEOUT
            } else {
                u64::MAX
            })
        } else {
            None
        };
        Generator { timeout, destinations, state: GeneratorState::NotInited }
    }

    /// Adds destinations behind those at hand.
    pub fn add_destinations(&mut self, destinations: Vec<PublicKey>)
        ensures
            final(self).destinations@ == old(self).destinations@ + destinations@,
            final(self).state == old(self).state,
            final(self).timeout == old(self).timeout,
    {
        let mut destinations = destinations;
        self.destinations.append(&mut destinations);
    }

    /// Takes the answer of the wallet to a payment request: after a
    /// created transaction the generator waits for its confirmation; after
    /// an error it waits for the wallet to become ready again; any other
    /// answer leaves it ready for the next payment.
    pub fn handle_wait_creation(&mut self, response: WalletResponse) -> (r: GeneratorAction)
        ensures
            final(self).destinations == old(self).destinations,
            final(self).timeout == old(self).timeout,
            final(self).state == match response {
                WalletResponse::TransactionCreated => GeneratorState::WaitForConfirmation,
                WalletResponse::Error => GeneratorState::NotInited,
                WalletResponse::Other => GeneratorState::CreateNew,
            },
            r == if response == WalletResponse::Other {
                GeneratorAction::Idle
            } else {
                GeneratorAction::Subscribe
            },
    {
        self.state = GeneratorState::CreateNew;
        match response {
            WalletResponse::TransactionCreated => {
                self.state = GeneratorState::WaitForConfirmation;
                GeneratorAction::Subscribe
            },
            WalletResponse::Error => {
                self.state = GeneratorState::NotInited;
                GeneratorAction::Subscribe
            },
            WalletResponse::Other => GeneratorAction::Idle,
        }
    }

    /// Process wallet notification, transient to create new transaction.
    pub fn handle_wait_confirm(&mut self, info: WalletNotification)
        ensures
            final(self).destinations == old(self).destinations,
            final(self).timeout == old(self).timeout,
            final(self).state == if info == WalletNotification::BalanceChanged {
                GeneratorState::CreateNew
            } else {
                old(self).state
            },
    {
        match info {
            WalletNotification::BalanceChanged => {
                self.state = GeneratorState::CreateNew;
            },
            // we just waiting for concrete notification, ignore other.
            _ => {},
        }
    }

    /// Process wallet notification, wait for blockchain initialisation.
    pub fn handle_wait_init(&mut self, info: WalletNotification)
        ensures
            final(self).destinations == old(self).destinations,
            final(self).timeout == old(self).timeout,
            final(self).state == if info == WalletNotification::BalanceChanged {
                GeneratorState::CreateNew
            } else {
                old(self).state
            },
    {
        match info {
            WalletNotification::BalanceChanged => {
                self.state = GeneratorState::CreateNew;
            },
            _ => {},
        }
    }

    /// Starts the payment to a recipient that has been drawn.
    pub fn pay(&mut self, recipient: PublicKey) -> (r: GeneratorAction)
        requires
            old(self).state == GeneratorState::CreateNew,
        ensures
            r == (GeneratorAction::Pay { recipient }),
            final(self).state == GeneratorState::WaitForWallet,
            final(self).destinations == old(self).destinations,
            final(self).timeout == old(self).timeout,
    {
        self.state = GeneratorState::WaitForWallet;
        GeneratorAction::Pay { recipient }
    }

    /// Start transaction generating, transient to WaitForWallet: a payment
    /// to one of the destinations, drawn at random.
    pub fn generate_tx(&mut self) -> (r: GeneratorAction)
        requires
            old(self).state == GeneratorState::CreateNew,
            old(self).destinations@.len() > 0,
        ensures
            r matches GeneratorAction::Pay { recipient } && old(self).destinations@.contains(
                recipient,
            ),
            final(self).state == GeneratorState::WaitForWallet,
            final(self).destinations == old(self).destinations,
            final(self).timeout == old(self).timeout,
    {
        let recipient = choose_destination(&self.destinations).unwrap();
        self.pay(recipient)
    }

    /// One step of the generator. Where a payment is due, it asks for one
    /// to a destination drawn at random and waits for the wallet; the
    /// event is not read. Else it takes the event, if there is one, as its
    /// state tells it to.
    pub fn step(&mut self, event: Option<WalletEvent>) -> (r: GeneratorAction)
        requires
            old(self).state == GeneratorState::CreateNew ==> old(self).destinations@.len() > 0,
        ensures
            final(self).destinations == old(self).destinations,
            final(self).timeout == old(self).timeout,
            old(self).state == GeneratorState::CreateNew ==> {
                &&& r matches GeneratorAction::Pay { recipient }
                &&& old(self).destinations@.contains(recipient)
                &&& final(self).state == GeneratorState::WaitForWallet
            },
            old(self).state != GeneratorState::CreateNew ==> {
                &&& final(self).state == spec_step_state(old(self).state, event)
                &&& r == spec_step_action(old(self).state, event)
            },
    {
        match self.state {
            GeneratorState::CreateNew => self.generate_tx(),
            GeneratorState::WaitForWallet => match event {
                Some(WalletEvent::Response(response)) => self.handle_wait_creation(response),
                _ => GeneratorAction::Idle,
            },
            GeneratorState::WaitForConfirmation => match event {
                Some(WalletEvent::Notification(info)) => {
                    self.handle_wait_confirm(info);
                    GeneratorAction::Idle
                },
                _ => GeneratorAction::Idle,
            },
            GeneratorState::NotInited => match event {
                Some(WalletEvent::Notification(info)) => {
                    self.handle_wait_init(info);
                    GeneratorAction::Idle
                },
                _ => GeneratorAction::Idle,
            },
        }
    }

    /// Whether the start delay is over at `now`; once it is, it is forgotten.
    pub fn poll_timeout(&mut self, now: u64) -> (r: bool)
        ensures
            r == match old(self).timeout {
                Some(t) => now >= t,
                None => true,
            },
            final(self).timeout == if r {
                None
            } else {
                old(self).timeout
            },
            final(self).state == old(self).state,
            final(self).destinations == old(self).destinations,
    {
        match self.timeout {
            Some(t) => {
                if now >= t {
                    self.timeout = None;
                    true
                } else {
                    false
                }
            },
            None => true,
        }
    }
}

} // verus!
