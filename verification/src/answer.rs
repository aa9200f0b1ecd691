//! Freezing a selection into a committed answer, and converting committed
//! answers into their final output form. Labels and indices are emitted in a
//! fixed order: toggled options ascending by index, then the trimmed custom
//! text (if any) with the sentinel index `-1`.

use vstd::prelude::*;
use crate::question::Question;
use crate::question::QuestionModel;
use crate::question::QuestionOptionModel;
use crate::selection::SelectionModel;
use crate::selection::SelectionState;
use crate::text::trim_spec;
use crate::text::trimmed;

verus! {

/// The sentinel index reported for the custom ("other") entry.
pub const CUSTOM_INDEX: i32 = -1;

/// The toggled positions of `tog`, in ascending order.
pub open spec fn toggled_indices(tog: Seq<bool>) -> Seq<int>
    decreases tog.len(),
{
    if tog.len() == 0 {
        Seq::empty()
    } else if tog.last() {
        toggled_indices(tog.drop_last()).push(tog.len() - 1)
    } else {
        toggled_indices(tog.drop_last())
    }
}

/// A `Vec<i32>` seen as a sequence of mathematical integers.
pub open spec fn indices_view(v: Seq<i32>) -> Seq<int> {
    v.map_values(|x: i32| x as int)
}

/// The ordered label list of a committed answer: the labels of the toggled
/// options, then the trimmed custom text if it is non-empty.
pub open spec fn committed_labels(
    opts: Seq<QuestionOptionModel>,
    tog: Seq<bool>,
    custom: Seq<char>,
) -> Seq<Seq<char>> {
    let base = toggled_indices(tog).map_values(|idx: int| opts[idx].label);
    if trim_spec(custom).len() > 0 {
        base.push(trim_spec(custom))
    } else {
        base
    }
}

/// The ordered index list of a committed answer, `-1` standing for the
/// custom entry.
pub open spec fn committed_indices(tog: Seq<bool>, custom: Seq<char>) -> Seq<int> {
    if trim_spec(custom).len() > 0 {
        toggled_indices(tog).push(-1)
    } else {
        toggled_indices(tog)
    }
}

/// Extending the scanned prefix of `tog` by one position extends its toggled
/// index list by that position exactly when it is toggled.
proof fn lemma_toggled_indices_step(tog: Seq<bool>, k: int)
    requires
        0 <= k < tog.len(),
    ensures
        toggled_indices(tog.subrange(0, k + 1)) == if tog[k] {
            toggled_indices(tog.subrange(0, k)).push(k)
        } else {
            toggled_indices(tog.subrange(0, k))
        },
{
    let ext = tog.subrange(0, k + 1);
    assert(ext.drop_last() =~= tog.subrange(0, k));
    assert(ext.last() == tog[k]);
}

/// The toggled index list is strictly ascending and within bounds: a
/// committed answer reports its predefined choices in option order.
pub proof fn lemma_toggled_indices_ascending(tog: Seq<bool>)
    ensures
        forall|a: int, b: int|
            0 <= a < b < toggled_indices(tog).len() ==> toggled_indices(tog)[a]
                < toggled_indices(tog)[b],
        forall|a: int|
            0 <= a < toggled_indices(tog).len() ==> 0 <= #[trigger] toggled_indices(tog)[a]
                < tog.len(),
    decreases tog.len(),
{
    if tog.len() > 0 {
        lemma_toggled_indices_ascending(tog.drop_last());
        let pre = toggled_indices(tog.drop_last());
        let whole = toggled_indices(tog);
        if tog.last() {
            assert(whole == pre.push(tog.len() - 1));
            assert forall|a: int| 0 <= a < whole.len() implies 0 <= #[trigger] whole[a]
                < tog.len() by {
                if a < pre.len() {
                    assert(whole[a] == pre[a]);
                }
            }
            assert forall|a: int, b: int| 0 <= a < b < whole.len() implies whole[a] < whole[b] by {
                if b < pre.len() {
                    assert(whole[a] == pre[a] && whole[b] == pre[b]);
                } else {
                    assert(whole[a] == pre[a] && whole[b] == tog.len() - 1);
                }
            }
        }
    }
}

/// A selection with at least one toggled option yields at least one index.
proof fn lemma_toggled_indices_nonempty(tog: Seq<bool>)
    requires
        exists|a: int| 0 <= a < tog.len() && tog[a],
    ensures
        toggled_indices(tog).len() >= 1,
    decreases tog.len(),
{
    if !tog.last() {
        let a = choose|a: int| 0 <= a < tog.len() && tog[a];
        assert(tog.drop_last()[a]);
        lemma_toggled_indices_nonempty(tog.drop_last());
    }
}

/// One answer, frozen when the user advances past its question and destroyed
/// when the user navigates back past it.
#[derive(Debug, Clone, PartialEq)]
pub struct CommittedAnswer {
    pub question: String,
    pub header: String,
    pub selected_labels: Vec<String>,
    pub selected_indices: Vec<i32>,
    pub multi_select: bool,
}

/// Mathematical image of a `CommittedAnswer`.
#[verifier::ext_equal]
pub ghost struct CommittedAnswerModel {
    pub question: Seq<char>,
    pub header: Seq<char>,
    pub labels: Seq<Seq<char>>,
    pub indices: Seq<int>,
    pub multi: bool,
}

impl CommittedAnswerModel {
    /// Every committed answer carries as many indices as labels, and at
    /// least one of each: freezing is gated on `has_selection`.
    pub open spec fn wf(self) -> bool {
        self.labels.len() == self.indices.len() && self.labels.len() >= 1
    }
}

impl View for CommittedAnswer {
    type V = CommittedAnswerModel;

    open spec fn view(&self) -> CommittedAnswerModel {
        CommittedAnswerModel {
            question: self.question@,
            header: self.header@,
            labels: self.selected_labels.deep_view(),
            indices: indices_view(self.selected_indices@),
            multi: self.multi_select,
        }
    }
}

impl DeepView for CommittedAnswer {
    type V = CommittedAnswerModel;

    open spec fn deep_view(&self) -> CommittedAnswerModel {
        self.view()
    }
}

/// What freezing a selection against its question yields.
pub open spec fn freeze_model(q: QuestionModel, s: SelectionModel) -> CommittedAnswerModel {
    CommittedAnswerModel {
        question: q.text,
        header: q.header,
        labels: committed_labels(q.options, s.toggled, s.custom),
        indices: committed_indices(s.toggled, s.custom),
        multi: q.multi_select,
    }
}

/// A selection that may be advanced past freezes into a well-formed answer.
pub proof fn lemma_freeze_wf(q: QuestionModel, s: SelectionModel)
    requires
        s.has_selection(),
    ensures
        freeze_model(q, s).wf(),
{
    if s.any_toggled() {
        lemma_toggled_indices_nonempty(s.toggled);
    }
}

/// Freezes the current selection into a committed answer for question `q`.
pub fn freeze(q: &Question, s: &SelectionState) -> (r: CommittedAnswer)
    requires
        s@.toggled.len() == q@.options.len(),
        q@.options.len() < 0x8000_0000,
    ensures
        r@ == freeze_model(q@, s@),
{
    let ghost opts: Seq<QuestionOptionModel> = q@.options;
    let ghost tog: Seq<bool> = s@.toggled;
    let ghost f = |idx: int| opts[idx].label;
    let n: usize = q.options.len();
    let mut labels: Vec<String> = Vec::new();
    let mut indices: Vec<i32> = Vec::new();
    let mut k: usize = 0;
    while k < n
        invariant
            k <= n,
            n == opts.len(),
            n == tog.len(),
            n < 0x8000_0000,
            opts == q@.options,
            tog == s@.toggled,
            f == (|idx: int| opts[idx].label),
            labels.deep_view() == toggled_indices(tog.subrange(0, k as int)).map_values(f),
            indices_view(indices@) == toggled_indices(tog.subrange(0, k as int)),
        decreases n - k,
    {
        proof {
            lemma_toggled_indices_step(tog, k as int);
        }
        if s.is_toggled(k) {
            let ghost before = toggled_indices(tog.subrange(0, k as int));
            labels.push(q.options[k].label.clone());
            indices.push(k as i32);
            proof {
                assert(labels.deep_view() =~= before.map_values(f).push(f(k as int)));
                assert(before.map_values(f).push(f(k as int)) =~= before.push(k as int).map_values(
                f));
                assert(indices_view(indices@) =~= before.push(k as int));
            }
        }
        k = k + 1;
    }
    proof {
        assert(tog.subrange(0, n as int) =~= tog);
    }
    let t = trimmed(s.custom_text().as_str());
    if !t.as_str().is_empty() {
        let ghost base_labels = labels.deep_view();
        let ghost base_indices = indices_view(indices@);
        labels.push(t);
        indices.push(CUSTOM_INDEX);
        proof {
            assert(labels.deep_view() =~= base_labels.push(trim_spec(s@.custom)));
            assert(indices_view(indices@) =~= base_indices.push(-1));
        }
    }
    let r = CommittedAnswer {
        question: q.text.clone(),
        header: q.header.clone(),
        selected_labels: labels,
        selected_indices: indices,
        multi_select: q.multi_select,
    };
    proof {
        assert(r@ =~= freeze_model(q@, s@));
    }
    r
}

/// The final shape of one answer: multi-select questions report the full
/// label and index lists, single-select questions collapse to the first
/// label and index.
#[derive(Debug, Clone, PartialEq)]
pub enum AnswerValue {
    Single { label: String, index: i32 },
    Multi { labels: Vec<String>, indices: Vec<i32> },
}

/// Mathematical image of an `AnswerValue`.
#[verifier::ext_equal]
pub ghost enum AnswerValueModel {
    Single { label: Seq<char>, index: int },
    Multi { labels: Seq<Seq<char>>, indices: Seq<int> },
}

impl View for AnswerValue {
    type V = AnswerValueModel;

    open spec fn view(&self) -> AnswerValueModel {
        match self {
            AnswerValue::Single { label, index } => AnswerValueModel::Single {
                label: label@,
                index: *index as int,
            },
            AnswerValue::Multi { labels, indices } => AnswerValueModel::Multi {
                labels: labels.deep_view(),
                indices: indices_view(indices@),
            },
        }
    }
}

/// One entry of the final report.
#[derive(Debug, Clone, PartialEq)]
pub struct AnswerEntry {
    pub question: String,
    pub header: String,
    pub value: AnswerValue,
}

/// Mathematical image of an `AnswerEntry`.
#[verifier::ext_equal]
pub ghost struct AnswerEntryModel {
    pub question: Seq<char>,
    pub header: Seq<char>,
    pub value: AnswerValueModel,
}

impl View for AnswerEntry {
    type V = AnswerEntryModel;

    open spec fn view(&self) -> AnswerEntryModel {
        AnswerEntryModel { question: self.question@, header: self.header@, value: self.value@ }
    }
}

impl DeepView for AnswerEntry {
    type V = AnswerEntryModel;

    open spec fn deep_view(&self) -> AnswerEntryModel {
        self.view()
    }
}

/// What finalizing a committed answer yields.
pub open spec fn finalize_model(a: CommittedAnswerModel) -> AnswerEntryModel {
    AnswerEntryModel {
        question: a.question,
        header: a.header,
        value: if a.multi {
            AnswerValueModel::Multi { labels: a.labels, indices: a.indices }
        } else {
            AnswerValueModel::Single { label: a.labels[0], index: a.indices[0] }
        },
    }
}

/// Copies a label list.
fn clone_labels(v: &Vec<String>) -> (r: Vec<String>)
    ensures
        r.deep_view() == v.deep_view(),
{
    let mut r: Vec<String> = Vec::new();
    let mut k: usize = 0;
    while k < v.len()
        invariant
            k <= v@.len(),
            r@.len() == k,
            forall|i: int| 0 <= i < k ==> r@[i]@ == v@[i]@,
        decreases v@.len() - k,
    {
        r.push(v[k].clone());
        k = k + 1;
    }
    proof {
        assert(r.deep_view() =~= v.deep_view());
    }
    r
}

/// Copies an index list.
fn clone_indices(v: &Vec<i32>) -> (r: Vec<i32>)
    ensures
        r@ == v@,
{
    let mut r: Vec<i32> = Vec::new();
    let mut k: usize = 0;
    while k < v.len()
        invariant
            k <= v@.len(),
            r@ == v@.subrange(0, k as int),
        decreases v@.len() - k,
    {
        r.push(v[k]);
        proof {
            assert(r@ =~= v@.subrange(0, k + 1));
        }
        k = k + 1;
    }
    proof {
        assert(v@.subrange(0, v@.len() as int) =~= v@);
    }
    r
}

/// Converts a committed answer into its final output form.
pub fn finalize(a: &CommittedAnswer) -> (r: AnswerEntry)
    requires
        a@.wf(),
    ensures
        r@ == finalize_model(a@),
{
    let value = if a.multi_select {
        AnswerValue::Multi {
            labels: clone_labels(&a.selected_labels),
            indices: clone_indices(&a.selected_indices),
        }
    } else {
        AnswerValue::Single { label: a.selected_labels[0].clone(), index: a.selected_indices[0] }
    };
    let r = AnswerEntry { question: a.question.clone(), header: a.header.clone(), value };
    proof {
        assert(r@ =~= finalize_model(a@));
    }
    r
}

} // verus!
