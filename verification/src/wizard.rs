//! The wizard state machine: walks the question list screen by screen,
//! freezes a committed answer on every forward step, discards one on every
//! backward step, aggregates everything on the review screen, and delivers
//! the outcome through the one-shot result channel. The core navigation
//! invariant ties the number of committed answers to the current screen:
//! equal to the question index on a question screen, equal to the question
//! count on review.

use vstd::prelude::*;
use crate::answer::AnswerEntry;
use crate::answer::AnswerEntryModel;
use crate::answer::CommittedAnswer;
use crate::answer::CommittedAnswerModel;
use crate::answer::finalize;
use crate::answer::finalize_model;
use crate::answer::freeze;
use crate::answer::freeze_model;
use crate::answer::lemma_freeze_wf;
use crate::channel::ChannelModel;
use crate::channel::Outcome;
use crate::channel::OutcomeModel;
use crate::channel::ResultChannel;
use crate::interp::FadeTransition;
use crate::interp::HoverState;
use crate::interp::UNIT;
use crate::interp::approach;
use crate::interp::ease_out_cubic_spec;
use crate::interp::fade_tick_spec;
use crate::interp::rate_step;
use crate::interp::HOVER_RATE;
use crate::question::Question;
use crate::question::QuestionModel;
use crate::selection::SelectionModel;
use crate::selection::SelectionState;

verus! {

/// The screen selector: one specific question, or the terminal review
/// screen.
#[derive(Clone, Copy, PartialEq, Eq, Structural, Debug)]
pub enum Screen {
    Question(usize),
    Review,
}

/// Mathematical image of a `WizardController`.
#[verifier::ext_equal]
pub ghost struct WizardModel {
    pub questions: Seq<QuestionModel>,
    pub screen: Screen,
    pub committed: Seq<CommittedAnswerModel>,
    pub selection: SelectionModel,
    pub channel: ChannelModel,
}

/// The selection state built whenever question `q` becomes active.
pub open spec fn fresh_selection_for(q: QuestionModel) -> SelectionModel {
    SelectionModel::fresh(q.options.len(), q.multi_select)
}

impl WizardModel {
    pub open spec fn total(self) -> int {
        self.questions.len() as int
    }

    /// The outcome has been delivered: no further transition is accepted.
    pub open spec fn terminal(self) -> bool {
        !self.channel.is_idle()
    }

    /// The question index of the current screen; the review screen counts as
    /// one past the last question.
    pub open spec fn screen_index(self) -> int {
        match self.screen {
            Screen::Question(i) => i as int,
            Screen::Review => self.questions.len() as int,
        }
    }

    /// The navigation invariant: the committed-answer count always equals
    /// the current screen index, each committed answer is well formed and
    /// belongs to the question at its own position, and the live selection
    /// is sized for the question on screen.
    pub open spec fn inv(self) -> bool {
        &&& self.questions.len() >= 1
        &&& self.questions.len() <= usize::MAX
        &&& forall|k: int|
            0 <= k < self.questions.len() ==> (#[trigger] self.questions[k]).options.len()
                < 0x8000_0000
        &&& match self.screen {
            Screen::Question(i) => i < self.questions.len() && self.committed.len() == i
                && self.selection.toggled.len() == self.questions[i as int].options.len()
                && self.selection.multi == self.questions[i as int].multi_select,
            Screen::Review => self.committed.len() == self.questions.len(),
        }
        &&& self.selection.wf()
        &&& forall|k: int|
            0 <= k < self.committed.len() ==> (#[trigger] self.committed[k]).wf()
                && self.committed[k].question == self.questions[k].text
                && self.committed[k].header == self.questions[k].header
                && self.committed[k].multi == self.questions[k].multi_select
    }

    /// An advance is permitted: live session, question screen, something
    /// selected.
    pub open spec fn can_advance(self) -> bool {
        !self.terminal() && self.screen is Question && self.selection.has_selection()
    }
}

/// The state of a fresh controller over `qs`.
pub open spec fn initial_model(qs: Seq<QuestionModel>) -> WizardModel {
    WizardModel {
        questions: qs,
        screen: Screen::Question(0usize),
        committed: Seq::empty(),
        selection: fresh_selection_for(qs[0]),
        channel: ChannelModel { message: Option::None, consumed: false },
    }
}

/// What `advance` does: freeze the current selection, append it, and move
/// one screen forward (or to review after the last question); a no-op
/// without a selection, on review, or after the outcome was delivered.
pub open spec fn advance_model(m: WizardModel) -> WizardModel {
    if !m.can_advance() {
        m
    } else {
        let i = m.screen_index();
        let frozen = freeze_model(m.questions[i], m.selection);
        if i + 1 < m.total() {
            WizardModel {
                questions: m.questions,
                screen: Screen::Question((i + 1) as usize),
                committed: m.committed.push(frozen),
                selection: fresh_selection_for(m.questions[i + 1]),
                channel: m.channel,
            }
        } else {
            WizardModel {
                questions: m.questions,
                screen: Screen::Review,
                committed: m.committed.push(frozen),
                selection: m.selection,
                channel: m.channel,
            }
        }
    }
}

/// What `retreat` does: pop the last committed answer and move one screen
/// back with an empty selection (the discarded answer is not restored); on
/// the first question it signals cancellation instead; a no-op after the
/// outcome was delivered.
pub open spec fn retreat_model(m: WizardModel) -> WizardModel {
    if m.terminal() {
        m
    } else {
        match m.screen {
            Screen::Question(i) => if i == 0 {
                WizardModel {
                    questions: m.questions,
                    screen: m.screen,
                    committed: m.committed,
                    selection: m.selection,
                    channel: ChannelModel {
                        message: Option::Some(OutcomeModel::Cancelled),
                        consumed: false,
                    },
                }
            } else {
                WizardModel {
                    questions: m.questions,
                    screen: Screen::Question((i - 1) as usize),
                    committed: m.committed.drop_last(),
                    selection: fresh_selection_for(m.questions[i - 1]),
                    channel: m.channel,
                }
            },
            Screen::Review => WizardModel {
                questions: m.questions,
                screen: Screen::Question((m.total() - 1) as usize),
                committed: m.committed.drop_last(),
                selection: fresh_selection_for(m.questions[m.total() - 1]),
                channel: m.channel,
            },
        }
    }
}

/// The final answer list: every committed answer in question order, each in
/// its output form.
pub open spec fn submitted_answers(m: WizardModel) -> Seq<AnswerEntryModel> {
    m.committed.map_values(|a: CommittedAnswerModel| finalize_model(a))
}

/// What `submit` does: deliver the aggregated answers; only valid from
/// review, a no-op elsewhere or after the outcome was delivered.
pub open spec fn submit_model(m: WizardModel) -> WizardModel {
    if m.terminal() || !(m.screen is Review) {
        m
    } else {
        WizardModel {
            questions: m.questions,
            screen: m.screen,
            committed: m.committed,
            selection: m.selection,
            channel: ChannelModel {
                message: Option::Some(OutcomeModel::Selected(submitted_answers(m))),
                consumed: false,
            },
        }
    }
}

/// What `cancel` does: deliver the cancellation signal from any screen; a
/// no-op once the outcome was delivered.
pub open spec fn cancel_model(m: WizardModel) -> WizardModel {
    if m.terminal() {
        m
    } else {
        WizardModel {
            questions: m.questions,
            screen: m.screen,
            committed: m.committed,
            selection: m.selection,
            channel: ChannelModel { message: Option::Some(OutcomeModel::Cancelled), consumed: false },
        }
    }
}

/// What the confirm shortcut does: advance on a question screen, submit on
/// review.
pub open spec fn confirm_model(m: WizardModel) -> WizardModel {
    match m.screen {
        Screen::Question(_) => advance_model(m),
        Screen::Review => submit_model(m),
    }
}

/// The screen reached after `k` permitted advances from the first question
/// of `total`.
pub open spec fn screen_after(k: int, total: int) -> Screen {
    if k < total {
        Screen::Question(k as usize)
    } else {
        Screen::Review
    }
}

/// An advance preserves the navigation invariant, leaves the question list
/// alone, and (when permitted) adds exactly one committed answer and moves
/// the screen one step forward.
pub proof fn lemma_advance_model_inv(m: WizardModel)
    requires
        m.inv(),
    ensures
        advance_model(m).inv(),
        advance_model(m).questions == m.questions,
        advance_model(m).channel == m.channel,
        m.can_advance() ==> advance_model(m).committed.len() == m.committed.len() + 1
            && advance_model(m).committed.drop_last() =~= m.committed
            && advance_model(m).screen == screen_after(m.committed.len() + 1 as int, m.total()),
{
    if m.can_advance() {
        let i = m.screen_index();
        lemma_freeze_wf(m.questions[i], m.selection);
        let a = advance_model(m);
        let frozen = freeze_model(m.questions[i], m.selection);
        assert(a.committed.drop_last() =~= m.committed);
        assert(a.committed[m.committed.len() as int] == frozen);
        assert(forall|k: int|
            0 <= k < m.committed.len() ==> #[trigger] a.committed[k] == m.committed[k]);
        assert(forall|k: int|
            0 <= k < a.committed.len() ==> (#[trigger] a.committed[k]).wf() && a.committed[k].question
                == a.questions[k].text && a.committed[k].header == a.questions[k].header
                && a.committed[k].multi == a.questions[k].multi_select);
    }
}

/// A retreat preserves the navigation invariant.
pub proof fn lemma_retreat_model_inv(m: WizardModel)
    requires
        m.inv(),
    ensures
        retreat_model(m).inv(),
        retreat_model(m).questions == m.questions,
{
    if !m.terminal() {
        let r = retreat_model(m);
        match m.screen {
            Screen::Question(i) => {
                if i > 0 {
                    assert(forall|k: int|
                        0 <= k < m.committed.len() - 1 ==> #[trigger] r.committed[k]
                            == m.committed[k]);
                }
            },
            Screen::Review => {
                assert(forall|k: int|
                    0 <= k < m.committed.len() - 1 ==> #[trigger] r.committed[k]
                        == m.committed[k]);
            },
        }
    }
}

/// Law: starting at the first question, each permitted advance moves the
/// wizard exactly one screen forward with exactly one more committed answer,
/// so `total` advances reach the review screen with `total` committed
/// answers.
pub proof fn lemma_advances_reach_review(trace: Seq<WizardModel>, total: int)
    requires
        total >= 1,
        trace.len() == total + 1,
        trace[0].inv(),
        trace[0].screen == Screen::Question(0usize),
        trace[0].committed.len() == 0,
        trace[0].questions.len() == total,
        forall|j: int|
            0 <= j < total ==> (#[trigger] trace[j]).can_advance() && trace[j + 1]
                == advance_model(trace[j]),
    ensures
        forall|k: int|
            0 <= k <= total ==> (#[trigger] trace[k]).screen == screen_after(k, total)
                && trace[k].committed.len() == k,
        trace[total].screen == Screen::Review,
        trace[total].committed.len() == total,
{
    assert forall|k: int| 0 <= k <= total implies (#[trigger] trace[k]).screen == screen_after(
        k,
        total,
    ) && trace[k].committed.len() == k by {
        lemma_advance_trace_prefix(trace, total, k);
    }
    lemma_advance_trace_prefix(trace, total, total);
}

/// The states along a trace of permitted advances: after `k` steps the
/// wizard shows screen `k` with `k` committed answers.
proof fn lemma_advance_trace_prefix(trace: Seq<WizardModel>, total: int, k: int)
    requires
        total >= 1,
        trace.len() == total + 1,
        trace[0].inv(),
        trace[0].screen == Screen::Question(0usize),
        trace[0].committed.len() == 0,
        trace[0].questions.len() == total,
        forall|j: int|
            0 <= j < total ==> (#[trigger] trace[j]).can_advance() && trace[j + 1]
                == advance_model(trace[j]),
        0 <= k <= total,
    ensures
        trace[k].inv(),
        trace[k].questions == trace[0].questions,
        trace[k].screen == screen_after(k, total),
        trace[k].committed.len() == k,
    decreases k,
{
    if k > 0 {
        lemma_advance_trace_prefix(trace, total, k - 1);
        lemma_advance_model_inv(trace[k - 1]);
    }
}

/// Law: a retreat straight after an advance returns to the very same screen
/// with the very same committed answers; only the in-progress selection has
/// been reset and must be re-entered.
pub proof fn lemma_retreat_undoes_advance(m: WizardModel)
    requires
        m.inv(),
        m.can_advance(),
    ensures
        retreat_model(advance_model(m)).screen == m.screen,
        retreat_model(advance_model(m)).committed == m.committed,
        retreat_model(advance_model(m)).questions == m.questions,
{
    lemma_advance_model_inv(m);
    let a = advance_model(m);
    assert(a.committed.drop_last() =~= m.committed);
}

/// Law: cancelling a live session delivers the cancellation outcome — which
/// carries no answers — whatever the current screen, the in-progress
/// selection and the committed answers.
pub proof fn lemma_cancel_outcome(m: WizardModel)
    requires
        !m.terminal(),
    ensures
        cancel_model(m).channel.message == Option::Some(OutcomeModel::Cancelled),
        cancel_model(m).terminal(),
        cancel_model(m).screen == m.screen,
        cancel_model(m).committed == m.committed,
{
}

/// Law: submitting from the review screen delivers exactly one answer per
/// question, in the original question order.
pub proof fn lemma_submit_order(m: WizardModel)
    requires
        m.inv(),
        !m.terminal(),
        m.screen is Review,
    ensures
        submit_model(m).channel.message == Option::Some(
            OutcomeModel::Selected(submitted_answers(m)),
        ),
        submit_model(m).terminal(),
        submitted_answers(m).len() == m.questions.len(),
        forall|k: int|
            0 <= k < submitted_answers(m).len() ==> (#[trigger] submitted_answers(m)[k]).question
                == m.questions[k].text && submitted_answers(m)[k].header == m.questions[k].header,
{
    assert forall|k: int| 0 <= k < submitted_answers(m).len() implies (#[trigger] submitted_answers(
        m,
    )[k]).question == m.questions[k].text && submitted_answers(m)[k].header
        == m.questions[k].header by {
        assert(m.committed[k].wf());
    }
}

/// The wizard controller: the questions, the current screen, the committed
/// answers, the live selection, the result channel, and the presentation
/// state (screen-transition fade and per-element hover intensities, which
/// never affect the answer model).
pub struct WizardController {
    questions: Vec<Question>,
    screen: Screen,
    committed: Vec<CommittedAnswer>,
    selection: SelectionState,
    channel: ResultChannel,
    transition: FadeTransition,
    hovers: Vec<HoverState>,
}

impl View for WizardController {
    type V = WizardModel;

    closed spec fn view(&self) -> WizardModel {
        WizardModel {
            questions: self.questions.deep_view(),
            screen: self.screen,
            committed: self.committed.deep_view(),
            selection: self.selection@,
            channel: self.channel@,
        }
    }
}

/// Builds a hover arena of `count` fresh interpolation states.
fn fresh_hovers(count: usize) -> (r: Vec<HoverState>)
    ensures
        r@.len() == count,
        forall|k: int| 0 <= k < count ==> (#[trigger] r@[k]).is_fresh() && r@[k].wf(),
{
    let mut r: Vec<HoverState> = Vec::new();
    let mut k: usize = 0;
    while k < count
        invariant
            k <= count,
            r@.len() == k,
            forall|a: int| 0 <= a < k ==> (#[trigger] r@[a]).is_fresh() && r@[a].wf(),
        decreases count - k,
    {
        r.push(HoverState::new());
        k = k + 1;
    }
    r
}

impl WizardController {
    /// The transition counter, for contracts about the fade.
    pub closed spec fn transition_progress(&self) -> int {
        self.transition.progress_spec()
    }

    /// The hover arena, for contracts about per-element hover feedback. Slot
    /// `k` belongs to option `k` of the question on screen; the last slot is
    /// reserved for the custom entry.
    pub closed spec fn hovers_seq(&self) -> Seq<HoverState> {
        self.hovers@
    }

    /// Presentation state is well formed: transition counter in range, every
    /// hover state in range, and on a question screen one hover slot per
    /// option plus the reserved custom slot.
    pub closed spec fn presentation_wf(&self) -> bool {
        &&& self.transition.wf()
        &&& forall|k: int| 0 <= k < self.hovers@.len() ==> (#[trigger] self.hovers@[k]).wf()
        &&& match self.screen {
            Screen::Question(i) => self.hovers@.len() == self@.questions[i as int].options.len()
                + 1,
            Screen::Review => true,
        }
    }

    pub open spec fn inv(&self) -> bool {
        self@.inv() && self.presentation_wf()
    }

    /// A controller at the first question of `questions`, nothing committed,
    /// nothing selected. The question list must not be empty; an empty input
    /// document is rejected before any wizard state exists.
    pub fn new(questions: Vec<Question>) -> (r: WizardController)
        requires
            questions.deep_view().len() >= 1,
            forall|k: int|
                0 <= k < questions.deep_view().len() ==> (#[trigger] questions.deep_view()[k]).options.len()
                    < 0x8000_0000,
        ensures
            r.inv(),
            r@ == initial_model(questions.deep_view()),
            r.transition_progress() == 0,
    {
        let n: usize = questions[0].options.len();
        let multi: bool = questions[0].multi_select;
        let r = WizardController {
            selection: SelectionState::new(n, multi),
            hovers: fresh_hovers(n + 1),
            screen: Screen::Question(0),
            committed: Vec::new(),
            channel: ResultChannel::new(),
            transition: FadeTransition::new(),
            questions,
        };
        proof {
            assert(r@.questions.len() == r.questions.len());
            assert(r@.committed =~= Seq::<CommittedAnswerModel>::empty());
            assert(r@ =~= initial_model(r@.questions));
        }
        r
    }

    pub fn question_count(&self) -> (r: usize)
        ensures
            r == self@.questions.len(),
    {
        self.questions.len()
    }

    /// The index of the screen: the current question's position, or the
    /// question count on review.
    pub fn current_index(&self) -> (r: usize)
        requires
            self.inv(),
        ensures
            r == self@.screen_index(),
    {
        match self.screen {
            Screen::Question(i) => i,
            Screen::Review => self.questions.len(),
        }
    }

    pub fn screen(&self) -> (r: Screen)
        ensures
            r == self@.screen,
    {
        self.screen
    }

    pub fn is_review(&self) -> (r: bool)
        ensures
            r == (self@.screen is Review),
    {
        match self.screen {
            Screen::Question(_) => false,
            Screen::Review => true,
        }
    }

    /// The outcome has been delivered; every further operation is a no-op.
    pub fn is_terminal(&self) -> (r: bool)
        ensures
            r == self@.terminal(),
    {
        !self.channel.is_idle()
    }

    /// The question currently on screen.
    pub fn current_question(&self) -> (r: &Question)
        requires
            self.inv(),
            self@.screen is Question,
        ensures
            r@ == self@.questions[self@.screen_index()],
    {
        match self.screen {
            Screen::Question(i) => &self.questions[i],
            Screen::Review => vstd::pervasive::unreached(),
        }
    }

    /// All questions, for the host's rendering.
    pub fn questions(&self) -> (r: &Vec<Question>)
        ensures
            r.deep_view() == self@.questions,
    {
        &self.questions
    }

    /// The answers committed so far, for the review screen.
    pub fn answers(&self) -> (r: &Vec<CommittedAnswer>)
        ensures
            r.deep_view() == self@.committed,
    {
        &self.committed
    }

    /// Whether the current question may be advanced past.
    pub fn has_selection(&self) -> (r: bool)
        ensures
            r == self@.selection.has_selection(),
    {
        self.selection.has_selection()
    }

    pub fn is_toggled(&self, i: usize) -> (r: bool)
        requires
            i < self@.selection.toggled.len(),
        ensures
            r == self@.selection.toggled[i as int],
    {
        self.selection.is_toggled(i)
    }

    pub fn custom_text(&self) -> (r: &String)
        ensures
            r@ == self@.selection.custom,
    {
        self.selection.custom_text()
    }

    /// Toggles option `i` of the question on screen; a no-op once the
    /// outcome was delivered.
    pub fn toggle(&mut self, i: usize)
        requires
            old(self).inv(),
            old(self)@.screen is Question,
            i < old(self)@.selection.toggled.len(),
        ensures
            final(self).inv(),
            final(self)@ == if old(self)@.terminal() {
                old(self)@
            } else {
                WizardModel { selection: old(self)@.selection.toggle(i as int), ..old(self)@ }
            },
    {
        if self.channel.is_idle() {
            self.selection.toggle(i);
        }
        proof {
            if !old(self)@.terminal() {
                assert(self@ =~= WizardModel {
                    selection: old(self)@.selection.toggle(i as int),
                    ..old(self)@
                });
            }
        }
    }

    /// Replaces the custom text of the question on screen; a no-op once the
    /// outcome was delivered.
    pub fn set_custom_text(&mut self, t: String)
        requires
            old(self).inv(),
            old(self)@.screen is Question,
        ensures
            final(self).inv(),
            final(self)@ == if old(self)@.terminal() {
                old(self)@
            } else {
                WizardModel { selection: old(self)@.selection.set_custom(t@), ..old(self)@ }
            },
    {
        if self.channel.is_idle() {
            self.selection.set_custom_text(t);
        }
        proof {
            if !old(self)@.terminal() {
                assert(self@ =~= WizardModel {
                    selection: old(self)@.selection.set_custom(t@),
                    ..old(self)@
                });
            }
        }
    }

    /// Freezes the current selection into a committed answer and moves one
    /// screen forward; after the last question, to review. A no-op without a
    /// selection, on review, or once the outcome was delivered. The
    /// transition fade restarts on the screen change.
    pub fn advance(&mut self)
        requires
            old(self).inv(),
        ensures
            final(self).inv(),
            final(self)@ == advance_model(old(self)@),
            old(self)@.can_advance() ==> final(self).transition_progress() == 0,
    {
        proof {
            lemma_advance_model_inv(old(self)@);
        }
        if !self.channel.is_idle() {
            return ;
        }
        let i: usize;
        match self.screen {
            Screen::Question(q) => {
                i = q;
            },
            Screen::Review => {
                return ;
            },
        }
        if !self.selection.has_selection() {
            return ;
        }
        let total: usize = self.questions.len();
        proof {
            assert(old(self)@.screen == Screen::Question(i));
            assert(i < old(self)@.questions.len());
        }
        let frozen = freeze(&self.questions[i], &self.selection);
        self.committed.push(frozen);
        let next: usize = i + 1;
        if next < total {
            self.screen = Screen::Question(next);
            let n: usize = self.questions[next].options.len();
            let multi: bool = self.questions[next].multi_select;
            self.selection = SelectionState::new(n, multi);
            self.hovers = fresh_hovers(n + 1);
            self.transition.reset();
        } else {
            self.screen = Screen::Review;
            self.transition.reset();
        }
        proof {
            assert(self@.committed =~= old(self)@.committed.push(
                freeze_model(old(self)@.questions[i as int], old(self)@.selection),
            ));
            assert(self@ =~= advance_model(old(self)@));
        }
    }

    /// Pops the last committed answer and moves one screen back, resetting
    /// that question's selection to empty (the discarded answer is not
    /// restored). On the first question it signals cancellation instead. A
    /// no-op once the outcome was delivered. The transition fade restarts on
    /// the screen change.
    pub fn retreat(&mut self)
        requires
            old(self).inv(),
        ensures
            final(self).inv(),
            final(self)@ == retreat_model(old(self)@),
            (!old(self)@.terminal() && old(self)@.screen_index() != 0) ==> final(self).transition_progress() == 0,
    {
        proof {
            lemma_retreat_model_inv(old(self)@);
        }
        if !self.channel.is_idle() {
            return ;
        }
        match self.screen {
            Screen::Question(i) => {
                if i == 0 {
                    self.channel.send(Outcome::Cancelled);
                } else {
                    self.committed.pop();
                    let prev: usize = i - 1;
                    self.screen = Screen::Question(prev);
                    let n: usize = self.questions[prev].options.len();
                    let multi: bool = self.questions[prev].multi_select;
                    self.selection = SelectionState::new(n, multi);
                    self.hovers = fresh_hovers(n + 1);
                    self.transition.reset();
                    proof {
                        assert(self@.committed =~= old(self)@.committed.drop_last());
                    }
                }
            },
            Screen::Review => {
                self.committed.pop();
                let last: usize = self.questions.len() - 1;
                self.screen = Screen::Question(last);
                let n: usize = self.questions[last].options.len();
                let multi: bool = self.questions[last].multi_select;
                self.selection = SelectionState::new(n, multi);
                self.hovers = fresh_hovers(n + 1);
                self.transition.reset();
                proof {
                    assert(self@.committed =~= old(self)@.committed.drop_last());
                }
            },
        }
        proof {
            assert(self@ =~= retreat_model(old(self)@));
        }
    }

    /// Converts every committed answer into its output form and delivers the
    /// answer list; only valid from review, a no-op elsewhere or once the
    /// outcome was delivered.
    pub fn submit(&mut self)
        requires
            old(self).inv(),
        ensures
            final(self).inv(),
            final(self)@ == submit_model(old(self)@),
    {
        if !self.channel.is_idle() {
            return ;
        }
        match self.screen {
            Screen::Question(_) => {
                return ;
            },
            Screen::Review => {},
        }
        let count: usize = self.committed.len();
        let mut entries: Vec<AnswerEntry> = Vec::new();
        let mut k: usize = 0;
        while k < count
            invariant
                k <= count,
                count == self.committed@.len(),
                self@.inv(),
                entries@.len() == k,
                forall|j: int|
                    0 <= j < k ==> (#[trigger] entries@[j])@ == finalize_model(self@.committed[j]),
            decreases count - k,
        {
            proof {
                assert(self@.committed[k as int].wf());
            }
            let entry = finalize(&self.committed[k]);
            entries.push(entry);
            k = k + 1;
        }
        proof {
            assert(entries.deep_view() =~= submitted_answers(self@));
        }
        self.channel.send(Outcome::Selected(entries));
        proof {
            assert(self@ =~= submit_model(old(self)@));
        }
    }

    /// Delivers the cancellation signal, from any screen; a no-op once the
    /// outcome was delivered.
    pub fn cancel(&mut self)
        requires
            old(self).inv(),
        ensures
            final(self).inv(),
            final(self)@ == cancel_model(old(self)@),
    {
        if self.channel.is_idle() {
            self.channel.send(Outcome::Cancelled);
        }
        proof {
            assert(self@ =~= cancel_model(old(self)@));
        }
    }

    /// The confirm shortcut: advance on a question screen, submit on review.
    pub fn key_confirm(&mut self)
        requires
            old(self).inv(),
        ensures
            final(self).inv(),
            final(self)@ == confirm_model(old(self)@),
    {
        match self.screen {
            Screen::Question(_) => self.advance(),
            Screen::Review => self.submit(),
        }
    }

    /// Receives the delivered outcome; the one-shot handoff to the host.
    pub fn receive_outcome(&mut self) -> (r: Outcome)
        requires
            old(self).inv(),
            old(self)@.channel.is_pending(),
        ensures
            final(self).inv(),
            Option::Some(r@) == old(self)@.channel.message,
            final(self)@.terminal(),
            final(self)@.questions == old(self)@.questions,
            final(self)@.screen == old(self)@.screen,
            final(self)@.committed == old(self)@.committed,
    {
        self.channel.recv()
    }

    /// One frame of the screen-transition fade, `dt_ms` milliseconds after
    /// the previous one. The answer model is untouched.
    pub fn tick(&mut self, dt_ms: u32)
        requires
            old(self).inv(),
        ensures
            final(self).inv(),
            final(self)@ == old(self)@,
            final(self).transition_progress() == fade_tick_spec(
                old(self).transition_progress(),
                dt_ms as int,
            ),
            final(self).hovers_seq() == old(self).hovers_seq(),
    {
        self.transition.tick(dt_ms);
    }

    /// The raw transition counter, in thousandths; grows linearly and is
    /// reset on every screen change.
    pub fn fade_progress(&self) -> (r: u32)
        ensures
            r == self.transition_progress(),
    {
        self.transition.progress()
    }

    /// The displayed fade value: the cubic ease-out of the transition
    /// counter, in thousandths.
    pub fn fade_value(&self) -> (r: u32)
        requires
            self.inv(),
        ensures
            r == ease_out_cubic_spec(self.transition_progress()),
            self.transition_progress() <= r <= UNIT,
    {
        self.transition.value()
    }

    /// The number of hover slots: one per option of the question on screen,
    /// plus the reserved custom slot.
    pub fn hover_count(&self) -> (r: usize)
        ensures
            r == self.hovers_seq().len(),
    {
        self.hovers.len()
    }

    /// One frame of the hover approach for slot `slot`. The answer model is
    /// untouched.
    pub fn hover_update(&mut self, slot: usize, hovered: bool, dt_ms: u32)
        requires
            old(self).inv(),
            slot < old(self).hovers_seq().len(),
        ensures
            final(self).inv(),
            final(self)@ == old(self)@,
            final(self).hovers_seq().len() == old(self).hovers_seq().len(),
            final(self).hovers_seq()[slot as int].target_spec() == (if hovered {
                UNIT as int
            } else {
                0
            }),
            final(self).hovers_seq()[slot as int].current_spec() == approach(
                old(self).hovers_seq()[slot as int].current_spec(),
                final(self).hovers_seq()[slot as int].target_spec(),
                rate_step(HOVER_RATE as int, dt_ms as int),
            ),
            forall|k: int|
                0 <= k < old(self).hovers_seq().len() && k != slot ==> final(self).hovers_seq()[k]
                    == old(self).hovers_seq()[k],
            final(self).transition_progress() == old(self).transition_progress(),
    {
        let mut h: HoverState = self.hovers[slot];
        h.update(hovered, dt_ms);
        self.hovers.set(slot, h);
    }

    /// The hover intensity of slot `slot`, in thousandths.
    pub fn hover_value(&self, slot: usize) -> (r: u32)
        requires
            slot < self.hovers_seq().len(),
        ensures
            r == self.hovers_seq()[slot as int].current_spec(),
    {
        self.hovers[slot].value()
    }
}

} // verus!
