//! What is said after something was chosen from a list.

use crate::app::rules::{rules_view, skills_view, RuleContext, RuleView, SkillContext, SkillView};
use crate::frontend::commands::remarked;
use crate::frontend::keys::{Choice, ChoiceView};
use crate::frontend::state::{Mode, UiState};
use crate::text;
use crate::text::opt_text;
use vstd::prelude::*;

verus! {

/// How something ended, as characters.
pub ghost enum Ended {
    Done(Seq<char>),
    Failed(Seq<char>),
}

/// How something ended, as characters.
pub open spec fn ended(outcome: Result<&str, &str>) -> Ended {
    match outcome {
        Ok(said) => Ended::Done(said@),
        Err(error) => Ended::Failed(error@),
    }
}

/// What is said of how something ended; a failure is named before its reason.
pub open spec fn ended_text(end: Ended, failed: Seq<char>) -> Seq<char> {
    match end {
        Ended::Done(said) => said,
        Ended::Failed(error) => failed + error,
    }
}

/// What is said of the first rule with a name, from rule `i` on.
pub open spec fn rule_text(rules: Seq<RuleView>, name: Seq<char>, i: int) -> Option<Seq<char>>
    decreases rules.len() - i,
{
    if i < 0 || i >= rules.len() {
        None
    } else if rules[i].name == name {
        Some("Rule: "@ + name + "\n\n"@ + rules[i].rule)
    } else {
        rule_text(rules, name, i + 1)
    }
}

/// What is said of the first skill with a name, from skill `i` on.
pub open spec fn skill_text(skills: Seq<SkillView>, name: Seq<char>, i: int) -> Option<Seq<char>>
    decreases skills.len() - i,
{
    if i < 0 || i >= skills.len() {
        None
    } else if skills[i].name == name {
        Some("Skill: "@ + name + "\n\n"@ + skills[i].description)
    } else {
        skill_text(skills, name, i + 1)
    }
}

/// What is said after a choice, if anything is. `end` says how it ended, where it can fail.
pub open spec fn choice_text(
    choice: ChoiceView,
    end: Ended,
    rules: Seq<RuleView>,
    skills: Seq<SkillView>,
) -> Option<Seq<char>> {
    match choice {
        ChoiceView::AddModel => None,
        ChoiceView::ListModels => None,
        ChoiceView::SwitchModel(_) => Some(ended_text(end, "(switch failed) "@)),
        ChoiceView::RemoveModel(_) => Some(ended_text(end, "(remove failed) "@)),
        ChoiceView::Recall(_) => Some(ended_text(end, "(remember failed) "@)),
        ChoiceView::Resume(_) => Some(ended_text(end, "(resume failed) "@)),
        ChoiceView::CancelTask(_) => Some(ended_text(end, Seq::empty())),
        ChoiceView::ShowRule(name) => rule_text(rules, name, 0),
        ChoiceView::ShowSkill(name) => skill_text(skills, name, 0),
        ChoiceView::Forget(name) => Some("forgot approval for "@ + name),
    }
}

/// What is said of how something ended.
fn say_end(outcome: Result<&str, &str>, failed: &str) -> (r: String)
    ensures
        r@ == ended_text(ended(outcome), failed@),
{
    match outcome {
        Ok(said) => said.to_owned(),
        Err(error) => text::glue(failed, error),
    }
}

/// What is said of the first rule with a name.
fn say_rule(rules: &Vec<RuleContext>, name: &str) -> (r: Option<String>)
    ensures
        opt_text(r) == rule_text(rules_view(rules@), name@, 0),
{
    let ghost all = rules_view(rules@);
    let mut i: usize = 0;
    while i < rules.len()
        invariant
            i <= rules@.len(),
            all == rules_view(rules@),
            rule_text(all, name@, 0) == rule_text(all, name@, i as int),
        decreases rules@.len() - i,
    {
        assert(all[i as int] == rules@[i as int]@);
        if text::same(rules[i].name.as_str(), name) {
            let mut said = text::glue3("Rule: ", name, "\n\n");
            said.append(rules[i].rule.as_str());
            return Some(said);
        }
        i += 1;
    }
    None
}

/// What is said of the first skill with a name.
fn say_skill(skills: &Vec<SkillContext>, name: &str) -> (r: Option<String>)
    ensures
        opt_text(r) == skill_text(skills_view(skills@), name@, 0),
{
    let ghost all = skills_view(skills@);
    let mut i: usize = 0;
    while i < skills.len()
        invariant
            i <= skills@.len(),
            all == skills_view(skills@),
            skill_text(all, name@, 0) == skill_text(all, name@, i as int),
        decreases skills@.len() - i,
    {
        assert(all[i as int] == skills@[i as int]@);
        if text::same(skills[i].name.as_str(), name) {
            let mut said = text::glue3("Skill: ", name, "\n\n");
            said.append(skills[i].description.as_str());
            return Some(said);
        }
        i += 1;
    }
    None
}

/// What is said after a choice, if anything is. `outcome` says how it ended, where it can fail.
pub fn say_choice(
    choice: &Choice,
    outcome: Result<&str, &str>,
    rules: &Vec<RuleContext>,
    skills: &Vec<SkillContext>,
) -> (r: Option<String>)
    ensures
        opt_text(r) == choice_text(
            choice@,
            ended(outcome),
            rules_view(rules@),
            skills_view(skills@),
        ),
{
    match choice {
        Choice::AddModel => None,
        Choice::ListModels => None,
        Choice::SwitchModel(_) => Some(say_end(outcome, "(switch failed) ")),
        Choice::RemoveModel(_) => Some(say_end(outcome, "(remove failed) ")),
        Choice::Recall(_) => Some(say_end(outcome, "(remember failed) ")),
        Choice::Resume(_) => Some(say_end(outcome, "(resume failed) ")),
        Choice::CancelTask(_) => {
            let none = String::new();
            assert(none@ =~= Seq::<char>::empty());
            Some(say_end(outcome, none.as_str()))
        },
        Choice::ShowRule(name) => say_rule(rules, name.as_str()),
        Choice::ShowSkill(name) => say_skill(skills, name.as_str()),
        Choice::Forget(name) => Some(text::glue("forgot approval for ", name.as_str())),
    }
}

/// Shows what is said after a choice, if anything is; the chat is in front then.
pub fn finish_choice(ui: &mut UiState, said: Option<String>)
    ensures
        match opt_text(said) {
            Some(said) => remarked(*old(ui), *final(ui), said),
            None => *final(ui) == (UiState { mode: Mode::Chat, ..*old(ui) }),
        },
{
    if let Some(said) = said {
        ui.push_system(said.as_str());
    }
    ui.mode = Mode::Chat;
}

/// What is said of a rule or a skill that was switched.
pub open spec fn toggled_text(enabled: bool, name: Seq<char>) -> Seq<char> {
    if enabled {
        "enabled "@ + name
    } else {
        "disabled "@ + name
    }
}

/// What is said of a rule or a skill that was switched.
pub fn say_toggled(enabled: bool, name: &str) -> (r: String)
    ensures
        r@ == toggled_text(enabled, name@),
{
    if enabled {
        text::glue("enabled ", name)
    } else {
        text::glue("disabled ", name)
    }
}

/// Shows how going on with the latest session ended.
pub fn report_continued(ui: &mut UiState, outcome: Result<&str, &str>)
    ensures
        remarked(
            *old(ui),
            *final(ui),
            match ended(outcome) {
                Ended::Done(said) => "(resumed) "@ + said,
                Ended::Failed(error) => "(continue failed) "@ + error,
            },
        ),
{
    crate::frontend::commands::report(ui, outcome, "(resumed) ", "(continue failed) ");
}

/// Shows how going on with a session that was named ended.
pub fn report_resumed(ui: &mut UiState, outcome: Result<&str, &str>)
    ensures
        remarked(
            *old(ui),
            *final(ui),
            match ended(outcome) {
                Ended::Done(said) => "(resumed) "@ + said,
                Ended::Failed(error) => "(resume failed) "@ + error,
            },
        ),
{
    crate::frontend::commands::report(ui, outcome, "(resumed) ", "(resume failed) ");
}

} // verus!
