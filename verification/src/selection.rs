//! Per-question selection state: which option indices are toggled and the
//! current free-text entry. Rebuilt whenever the active question changes.
//! In single-select mode a predefined choice and a non-empty custom text
//! exclude one another; in multi-select mode they may coexist.

use vstd::prelude::*;
use crate::text::trim_spec;
use crate::text::trimmed_is_empty;

verus! {

/// Mathematical image of a `SelectionState`.
#[verifier::ext_equal]
pub ghost struct SelectionModel {
    pub toggled: Seq<bool>,
    pub custom: Seq<char>,
    pub multi: bool,
}

impl SelectionModel {
    /// The state built whenever a question becomes active: nothing toggled,
    /// empty custom text.
    pub open spec fn fresh(n: nat, multi: bool) -> SelectionModel {
        SelectionModel { toggled: Seq::new(n, |i: int| false), custom: Seq::empty(), multi }
    }

    /// Toggling option `i`: independent flip in multi-select mode; in
    /// single-select mode it becomes the only toggled option and the custom
    /// text is cleared.
    pub open spec fn toggle(self, i: int) -> SelectionModel {
        if self.multi {
            SelectionModel {
                toggled: self.toggled.update(i, !self.toggled[i]),
                custom: self.custom,
                multi: self.multi,
            }
        } else {
            SelectionModel {
                toggled: Seq::new(self.toggled.len(), |j: int| j == i),
                custom: Seq::empty(),
                multi: self.multi,
            }
        }
    }

    /// Replacing the custom text: in single-select mode a non-empty entry
    /// clears every toggled option (last write wins).
    pub open spec fn set_custom(self, t: Seq<char>) -> SelectionModel {
        SelectionModel {
            toggled: if !self.multi && t.len() > 0 {
                Seq::new(self.toggled.len(), |j: int| false)
            } else {
                self.toggled
            },
            custom: t,
            multi: self.multi,
        }
    }

    pub open spec fn any_toggled(self) -> bool {
        exists|a: int| 0 <= a < self.toggled.len() && self.toggled[a]
    }

    pub open spec fn none_toggled(self) -> bool {
        forall|a: int| 0 <= a < self.toggled.len() ==> !self.toggled[a]
    }

    pub open spec fn at_most_one_toggled(self) -> bool {
        forall|a: int, b: int|
            0 <= a < self.toggled.len() && 0 <= b < self.toggled.len() && self.toggled[a]
                && self.toggled[b] ==> a == b
    }

    /// Something is selected: a toggled option, or visible custom text.
    pub open spec fn has_selection(self) -> bool {
        self.any_toggled() || trim_spec(self.custom).len() > 0
    }

    /// The single-select invariant: at most one option toggled, and never
    /// one beside a non-empty custom text.
    pub open spec fn wf(self) -> bool {
        !self.multi ==> (self.at_most_one_toggled() && (self.custom.len() > 0
            ==> self.none_toggled()))
    }
}

/// Law: a freshly reset selection reports nothing selected, and the first
/// toggle, or a custom text with visible characters, makes `has_selection`
/// true.
pub proof fn lemma_fresh_then_first_input(n: nat, multi: bool, i: int, t: Seq<char>)
    requires
        0 <= i < n,
    ensures
        !SelectionModel::fresh(n, multi).has_selection(),
        SelectionModel::fresh(n, multi).toggle(i).has_selection(),
        trim_spec(t).len() > 0 ==> SelectionModel::fresh(n, multi).set_custom(t).has_selection(),
{
    let fresh = SelectionModel::fresh(n, multi);
    assert(trim_spec(fresh.custom).len() == 0);
    assert(fresh.toggle(i).toggled[i]);
}

/// Law: in single-select mode a toggled option and a non-empty custom text
/// never coexist and at most one option is toggled, whatever sequence of
/// toggles and custom edits was made: a fresh selection satisfies the
/// invariant, and both operations preserve it.
pub proof fn lemma_single_select_exclusion(s: SelectionModel, n: nat, multi: bool, i: int, t: Seq<char>)
    requires
        s.wf(),
        0 <= i < s.toggled.len(),
    ensures
        SelectionModel::fresh(n, multi).wf(),
        s.toggle(i).wf(),
        s.set_custom(t).wf(),
{
}

/// The mutable selection record of the question currently on screen.
pub struct SelectionState {
    toggled: Vec<bool>,
    custom: String,
    multi: bool,
}

impl View for SelectionState {
    type V = SelectionModel;

    closed spec fn view(&self) -> SelectionModel {
        SelectionModel { toggled: self.toggled@, custom: self.custom@, multi: self.multi }
    }
}

impl SelectionState {
    pub open spec fn inv(&self) -> bool {
        self@.wf()
    }

    /// A fresh state for a question with `option_count` options.
    pub fn new(option_count: usize, multi: bool) -> (r: SelectionState)
        ensures
            r@ == SelectionModel::fresh(option_count as nat, multi),
            r.inv(),
    {
        let mut toggled: Vec<bool> = Vec::new();
        let mut k: usize = 0;
        while k < option_count
            invariant
                k <= option_count,
                toggled@.len() == k,
                forall|a: int| 0 <= a < k ==> !toggled@[a],
            decreases option_count - k,
        {
            toggled.push(false);
            k = k + 1;
        }
        let r = SelectionState { toggled, custom: String::new(), multi };
        proof {
            assert(r@ =~= SelectionModel::fresh(option_count as nat, multi));
        }
        r
    }

    pub fn option_count(&self) -> (r: usize)
        ensures
            r == self@.toggled.len(),
    {
        self.toggled.len()
    }

    pub fn is_multi(&self) -> (r: bool)
        ensures
            r == self@.multi,
    {
        self.multi
    }

    pub fn is_toggled(&self, i: usize) -> (r: bool)
        requires
            i < self@.toggled.len(),
        ensures
            r == self@.toggled[i as int],
    {
        self.toggled[i]
    }

    pub fn custom_text(&self) -> (r: &String)
        ensures
            r@ == self@.custom,
    {
        &self.custom
    }

    /// Toggles option `i`, with radio semantics in single-select mode and
    /// checkbox semantics in multi-select mode.
    pub fn toggle(&mut self, i: usize)
        requires
            i < old(self)@.toggled.len(),
            old(self).inv(),
        ensures
            final(self)@ == old(self)@.toggle(i as int),
            final(self).inv(),
    {
        if self.multi {
            let v: bool = self.toggled[i];
            self.toggled.set(i, !v);
        } else {
            let len: usize = self.toggled.len();
            let mut k: usize = 0;
            while k < len
                invariant
                    k <= len,
                    self.toggled@.len() == len,
                    i < len,
                    forall|a: int| 0 <= a < k ==> self.toggled@[a] == (a == i),
                    self.custom@ == old(self)@.custom,
                    self.multi == old(self)@.multi,
                decreases len - k,
            {
                self.toggled.set(k, k == i);
                k = k + 1;
            }
            self.custom = String::new();
        }
        proof {
            assert(self@ =~= old(self)@.toggle(i as int));
        }
    }

    /// Replaces the custom text; in single-select mode a non-empty entry
    /// clears every toggled option.
    pub fn set_custom_text(&mut self, t: String)
        requires
            old(self).inv(),
        ensures
            final(self)@ == old(self)@.set_custom(t@),
            final(self).inv(),
    {
        if !self.multi && !t.as_str().is_empty() {
            let len: usize = self.toggled.len();
            let mut k: usize = 0;
            while k < len
                invariant
                    k <= len,
                    self.toggled@.len() == len,
                    forall|a: int| 0 <= a < k ==> !self.toggled@[a],
                    self.custom@ == old(self)@.custom,
                    self.multi == old(self)@.multi,
                decreases len - k,
            {
                self.toggled.set(k, false);
                k = k + 1;
            }
        }
        self.custom = t;
        proof {
            assert(self@ =~= old(self)@.set_custom(self.custom@));
        }
    }

    /// True iff the current question may be advanced past: at least one
    /// option is toggled or the custom text has visible characters.
    pub fn has_selection(&self) -> (r: bool)
        ensures
            r == self@.has_selection(),
    {
        let len: usize = self.toggled.len();
        let mut k: usize = 0;
        let mut any: bool = false;
        while k < len
            invariant
                k <= len,
                self.toggled@.len() == len,
                any == exists|a: int| 0 <= a < k && self@.toggled[a],
            decreases len - k,
        {
            if self.toggled[k] {
                any = true;
                proof {
                    assert(self@.toggled[k as int]);
                }
            }
            k = k + 1;
        }
        proof {
            assert(any == self@.any_toggled());
        }
        if any {
            true
        } else {
            !trimmed_is_empty(self.custom.as_str())
        }
    }
}

} // verus!
