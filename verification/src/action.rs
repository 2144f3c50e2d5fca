//! The syntax tree: what the parser makes and the evaluator walks.

use crate::location::Location;
use crate::model::{ActionValView, ActionView};
use crate::value::{value_view, Value};
use vstd::prelude::*;

verus! {

/// One node of the syntax tree.
#[derive(Debug)]
pub struct Action {
    pub val: ActionVal,
    pub location: Location,
}

/// What a node is.
#[derive(Debug)]
pub enum ActionVal {
    /// A name.
    Ident(String),
    /// A value written out in the source.
    Literal(Value),
    /// A parenthesised group; `quoted` where it was opened with `'(`.
    Group { content: Vec<Action>, quoted: bool },
}

/// The views of a sequence of actions.
pub open spec fn actions_view(actions: Seq<Action>) -> Seq<ActionView>
    decreases actions,
{
    Seq::new(
        actions.len(),
        |i: int|
            if 0 <= i < actions.len() {
                action_view(actions[i])
            } else {
                arbitrary()
            },
    )
}

/// The view of an action.
pub open spec fn action_view(action: Action) -> ActionView
    decreases action,
{
    ActionView {
        val: match action.val {
            ActionVal::Ident(name) => ActionValView::Ident(name@),
            ActionVal::Literal(value) => ActionValView::Literal(value_view(value)),
            ActionVal::Group { content, quoted } => ActionValView::Group {
                content: actions_view(content@),
                quoted,
            },
        },
        location: action.location@,
    }
}

impl View for Action {
    type V = ActionView;

    open spec fn view(&self) -> ActionView {
        action_view(*self)
    }
}

/// The view of a sequence of actions has one entry for each of them.
pub proof fn lemma_actions_view(actions: Seq<Action>)
    ensures
        actions_view(actions).len() == actions.len(),
        forall|i: int| 0 <= i < actions.len() ==> (#[trigger] actions_view(actions)[i]) == actions[i]@,
{
    let views = Seq::new(
        actions.len(),
        |i: int|
            if 0 <= i < actions.len() {
                action_view(actions[i])
            } else {
                arbitrary()
            },
    );
    assert(views.len() == actions.len());
    assert(actions_view(actions) == views);
}

/// The view of a part of a sequence is that part of the view.
pub proof fn lemma_actions_view_subrange(actions: Seq<Action>, from: int, to: int)
    requires
        0 <= from <= to <= actions.len(),
    ensures
        actions_view(actions.subrange(from, to)) == actions_view(actions).subrange(from, to),
{
    lemma_actions_view(actions);
    lemma_actions_view(actions.subrange(from, to));
    assert(actions_view(actions.subrange(from, to)) =~= actions_view(actions).subrange(from, to));
}

impl Clone for Action {
    fn clone(&self) -> (r: Action)
        ensures
            r@ == self@,
        decreases self,
    {
        let val = match &self.val {
            ActionVal::Ident(name) => ActionVal::Ident(name.clone()),
            ActionVal::Literal(value) => ActionVal::Literal(value.clone()),
            ActionVal::Group { content, quoted } => ActionVal::Group {
                content: clone_actions(content.as_slice()),
                quoted: *quoted,
            },
        };
        Action { val, location: self.location.clone() }
    }
}

/// A copy of a sequence of actions.
pub fn clone_actions(actions: &[Action]) -> (r: Vec<Action>)
    ensures
        actions_view(r@) == actions_view(actions@),
    decreases actions@,
{
    let mut copy: Vec<Action> = Vec::new();
    let mut i: usize = 0;
    while i < actions.len()
        invariant
            i <= actions.len(),
            copy.len() == i,
            forall|j: int| 0 <= j < i ==> (#[trigger] copy@[j])@ == actions@[j]@,
        decreases actions.len() - i,
    {
        copy.push(actions[i].clone());
        i += 1;
    }
    proof {
        lemma_actions_view(copy@);
        lemma_actions_view(actions@);
        assert(actions_view(copy@) =~= actions_view(actions@));
    }
    copy
}

} // verus!
