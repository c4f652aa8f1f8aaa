//! What is done about a request, step by step.
//!
//! The host keeps the managed set and the data. A request that needs the set has it loaded first;
//! the first with a valid key has it seeded; one that changes it has it saved before it goes on; and
//! one about data ends with a call of the host.

use crate::json::{string, Members, Tree};
use crate::managed::{set_tree, ManagedModel, ManagedSet};
use crate::response::{is_text_of, singleton};
use vstd::prelude::*;

verus! {

/// The name under which the host keeps the managed set.
pub const SETTING: &'static str = "managed_keys";

/// The functions of the host that the data comes from.
#[derive(Clone, Copy, Debug, PartialEq, Eq, Structural)]
pub enum HostFunction {
    ListProjects,
    ListCards,
    CreateCard,
}

/// What ends a request.
#[derive(Debug)]
pub enum Next {
    /// Return this text.
    Reply(String),
    /// Call the host with this input, and return what `host_reply` makes of the outcome.
    Call(HostFunction, String),
}

/// What is to be done next about a request.
#[derive(Debug)]
pub enum Step {
    /// End the request so.
    Now(Next),
    /// Ask the host for the setting that this input names, and hand the outcome to `resume`.
    Load(String),
    /// Have the host set the setting that this input names, and go on so whatever the outcome: a
    /// set that could not be seeded is seeded by the next request.
    Seed(String, Next),
    /// Have the host set the setting that this input names, and hand the outcome to `saved`
    /// together with what is to follow.
    Save(String, Next),
}

/// What a [`Next`] comes to.
pub enum After {
    /// Reply with the text of this tree.
    Reply(Tree),
    /// Ask the host for the projects.
    ListProjects,
    /// Ask the host for the cards that pass these filters.
    ListCards(Tree),
    /// Ask the host to create a card from this body.
    CreateCard(Tree),
}

/// What a [`Step`] comes to.
pub enum Action {
    /// End the request so.
    Now(After),
    /// Load the managed set.
    Load,
    /// Make this the first managed set, if the host can, and go on so.
    Seed(Seq<ManagedModel>, After),
    /// Make this the managed set, and go on so.
    Save(Seq<ManagedModel>, After),
}

/// The input that names the setting.
pub open spec fn load_input() -> Tree {
    singleton("key"@, Tree::Str(SETTING@))
}

/// The input that sets the setting to a managed set.
pub open spec fn save_input(set: Seq<ManagedModel>) -> Tree {
    Tree::Object(
        Map::empty().insert("key"@, Tree::Str(SETTING@)).insert("value"@, set_tree(set)),
    )
}

impl Next {
    /// Whether this does what `after` says.
    pub open spec fn performs(self, after: After) -> bool {
        match (self, after) {
            (Next::Reply(text), After::Reply(tree)) => is_text_of(text@, tree),
            (Next::Call(HostFunction::ListProjects, input), After::ListProjects) => input@ == "{}"@,
            (Next::Call(HostFunction::ListCards, input), After::ListCards(filters)) => is_text_of(
                input@,
                filters,
            ),
            (Next::Call(HostFunction::CreateCard, input), After::CreateCard(body)) => is_text_of(
                input@,
                body,
            ),
            _ => false,
        }
    }
}

impl Step {
    /// Whether the step does what `action` says.
    pub open spec fn performs(self, action: Action) -> bool {
        match (self, action) {
            (Step::Now(next), Action::Now(after)) => next.performs(after),
            (Step::Load(input), Action::Load) => is_text_of(input@, load_input()),
            (Step::Seed(input, next), Action::Seed(set, after)) => is_text_of(
                input@,
                save_input(set),
            ) && next.performs(after),
            (Step::Save(input, next), Action::Save(set, after)) => is_text_of(
                input@,
                save_input(set),
            ) && next.performs(after),
            _ => false,
        }
    }
}

/// The step that ends a request with a reply.
pub fn reply_step(text: String) -> (step: Step)
    ensures
        step == Step::Now(Next::Reply(text)),
{
    Step::Now(Next::Reply(text))
}

/// The step that loads the managed set.
pub fn load_step() -> (step: Step)
    ensures
        step.performs(Action::Load),
{
    Step::Load(Members::new().with("key", string(SETTING)).object().to_text())
}

/// The input that sets the setting to a managed set.
fn save_text(set: &ManagedSet) -> (input: String)
    ensures
        is_text_of(input@, save_input(set@)),
{
    Members::new().with("key", string(SETTING)).with("value", set.to_json()).object().to_text()
}

/// The step that seeds a managed set, and goes on with `next`.
pub fn seed_step(set: &ManagedSet, next: Next) -> (step: Step)
    ensures
        step matches Step::Seed(input, then) && is_text_of(input@, save_input(set@)) && then == next,
{
    Step::Seed(save_text(set), next)
}

/// The step that saves a managed set, and goes on with `next`.
pub fn save_step(set: &ManagedSet, next: Next) -> (step: Step)
    ensures
        step matches Step::Save(input, then) && is_text_of(input@, save_input(set@)) && then == next,
{
    Step::Save(save_text(set), next)
}

} // verus!
