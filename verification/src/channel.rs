//! The one-shot handoff from the wizard to the host: either the finished
//! answer list or a cancellation signal, sent exactly once and received
//! exactly once per session.

use vstd::prelude::*;
use crate::answer::AnswerEntry;
use crate::answer::AnswerEntryModel;

verus! {

/// The terminal outcome of a session.
#[derive(Debug, Clone, PartialEq)]
pub enum Outcome {
    Selected(Vec<AnswerEntry>),
    Cancelled,
}

/// Mathematical image of an `Outcome`.
#[verifier::ext_equal]
pub ghost enum OutcomeModel {
    Selected(Seq<AnswerEntryModel>),
    Cancelled,
}

impl View for Outcome {
    type V = OutcomeModel;

    open spec fn view(&self) -> OutcomeModel {
        match self {
            Outcome::Selected(answers) => OutcomeModel::Selected(answers.deep_view()),
            Outcome::Cancelled => OutcomeModel::Cancelled,
        }
    }
}

impl Outcome {
    /// The status word of the final report.
    pub fn status(&self) -> (r: &'static str)
        ensures
            self@ is Selected ==> r@ == "selected"@,
            self@ is Cancelled ==> r@ == "cancelled"@,
    {
        match self {
            Outcome::Selected(_) => "selected",
            Outcome::Cancelled => "cancelled",
        }
    }

    /// The answers carried by the outcome; a cancellation carries none.
    pub fn into_answers(self) -> (r: Vec<AnswerEntry>)
        ensures
            self@ is Selected ==> OutcomeModel::Selected(r.deep_view()) == self@,
            self@ is Cancelled ==> r.deep_view() == Seq::<AnswerEntryModel>::empty(),
    {
        match self {
            Outcome::Selected(answers) => answers,
            Outcome::Cancelled => {
                let empty: Vec<AnswerEntry> = Vec::new();
                proof {
                    assert(empty.deep_view() =~= Seq::<AnswerEntryModel>::empty());
                }
                empty
            },
        }
    }
}

/// Mathematical image of a `ResultChannel`: what has been sent, and whether
/// it was already received.
#[verifier::ext_equal]
pub ghost struct ChannelModel {
    pub message: Option<OutcomeModel>,
    pub consumed: bool,
}

impl ChannelModel {
    /// Nothing sent yet: the session is still live.
    pub open spec fn is_idle(self) -> bool {
        self.message is None && !self.consumed
    }

    /// A message was sent and still waits for the receiver.
    pub open spec fn is_pending(self) -> bool {
        self.message is Some && !self.consumed
    }
}

/// A single-producer, single-consumer, one-message channel: the sole
/// synchronisation point between the wizard and the host.
pub struct ResultChannel {
    slot: Option<Outcome>,
    consumed: bool,
}

impl View for ResultChannel {
    type V = ChannelModel;

    closed spec fn view(&self) -> ChannelModel {
        ChannelModel {
            message: match self.slot {
                Option::Some(o) => Option::Some(o@),
                Option::None => Option::None,
            },
            consumed: self.consumed,
        }
    }
}

impl ResultChannel {
    pub fn new() -> (r: ResultChannel)
        ensures
            r@.is_idle(),
    {
        ResultChannel { slot: Option::None, consumed: false }
    }

    pub fn is_idle(&self) -> (r: bool)
        ensures
            r == self@.is_idle(),
    {
        match self.slot {
            Option::Some(_) => false,
            Option::None => !self.consumed,
        }
    }

    /// Delivers the outcome. A second send is a programming error, so an
    /// idle channel is required.
    pub fn send(&mut self, outcome: Outcome)
        requires
            old(self)@.is_idle(),
        ensures
            final(self)@.message == Option::Some(outcome@),
            !final(self)@.consumed,
    {
        self.slot = Option::Some(outcome);
    }

    /// Takes the delivered outcome; each message is received exactly once.
    pub fn recv(&mut self) -> (r: Outcome)
        requires
            old(self)@.is_pending(),
        ensures
            Option::Some(r@) == old(self)@.message,
            final(self)@.consumed,
            final(self)@.message is None,
    {
        self.consumed = true;
        let taken: Option<Outcome> = self.slot.take();
        match taken {
            Option::Some(o) => o,
            Option::None => vstd::pervasive::unreached(),
        }
    }
}

} // verus!
