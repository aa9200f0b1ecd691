//! The immutable question definitions: an ordered list of questions, each
//! with a prompt, an optional header tag, an ordered list of predefined
//! options and a multi-select flag. Options are addressed by position.

use vstd::prelude::*;

verus! {

/// One predefined option of a question.
#[derive(Debug, Clone, PartialEq)]
pub struct QuestionOption {
    pub label: String,
    pub description: String,
}

/// Mathematical image of a `QuestionOption`.
#[verifier::ext_equal]
pub ghost struct QuestionOptionModel {
    pub label: Seq<char>,
    pub description: Seq<char>,
}

impl View for QuestionOption {
    type V = QuestionOptionModel;

    open spec fn view(&self) -> QuestionOptionModel {
        QuestionOptionModel { label: self.label@, description: self.description@ }
    }
}

impl DeepView for QuestionOption {
    type V = QuestionOptionModel;

    open spec fn deep_view(&self) -> QuestionOptionModel {
        self.view()
    }
}

/// One question of the wizard.
#[derive(Debug, Clone, PartialEq)]
pub struct Question {
    pub text: String,
    pub header: String,
    pub options: Vec<QuestionOption>,
    pub multi_select: bool,
}

/// Mathematical image of a `Question`.
#[verifier::ext_equal]
pub ghost struct QuestionModel {
    pub text: Seq<char>,
    pub header: Seq<char>,
    pub options: Seq<QuestionOptionModel>,
    pub multi_select: bool,
}

impl View for Question {
    type V = QuestionModel;

    open spec fn view(&self) -> QuestionModel {
        QuestionModel {
            text: self.text@,
            header: self.header@,
            options: self.options.deep_view(),
            multi_select: self.multi_select,
        }
    }
}

impl DeepView for Question {
    type V = QuestionModel;

    open spec fn deep_view(&self) -> QuestionModel {
        self.view()
    }
}

} // verus!
