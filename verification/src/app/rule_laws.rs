//! What holds of rules and skills: names are clean, the project comes first, and what is written is
//! read back.

use crate::app::rules;
use crate::app::rules::{
    all_rules, all_skills, alphanumeric, body_of, dashed, dashes, enabled_rules, enabled_skills,
    field_in, field_of, front_end, front_lines, has_skill, rule_from, rule_named, rule_names,
    rule_text, skill_in, sorted_rules, stem, truth_of, unquoted, with_field, with_files, with_rule,
    with_truth, yaml, FileView, RuleView, SkillSource, SkillView,
};
use crate::order;
use crate::order::order_of;
use crate::text;
use crate::text::{
    find_from, has_prefix, join, lines, occurs_at, or_empty, precedes, replaced, split, trim,
    trim_end_char, trim_start_char, without_cr,
};
use vstd::prelude::*;

verus! {

// ---------------------------------------------------------------------------------------------
// Names
// ---------------------------------------------------------------------------------------------
/// Whether a text is made of letters, digits and single dashes.
pub open spec fn smooth(s: Seq<char>) -> bool {
    &&& forall|i: int| 0 <= i < s.len() ==> alphanumeric(#[trigger] s[i]) || s[i] == '-'
    &&& forall|i: int, j: int|
        0 <= i && j == i + 1 && j < s.len() ==> #[trigger] s[i] != '-' || #[trigger] s[j] != '-'
}

/// Whether a text is a clean name: letters, digits and single dashes, none of them at the ends.
pub open spec fn clean_name(s: Seq<char>) -> bool {
    smooth(s) && (s.len() > 0 ==> s[0] != '-' && s.last() != '-')
}

proof fn dashes_are_smooth(s: Seq<char>, n: int)
    requires
        0 <= n <= s.len(),
    ensures
        smooth(dashes(s, n)),
    decreases n,
{
    if n > 0 {
        dashes_are_smooth(s, n - 1);
    }
}

/// A name that was made safe is clean.
pub proof fn names_are_clean(s: Seq<char>)
    ensures
        clean_name(dashed(s)),
{
    let all = dashes(s, s.len() as int);
    dashes_are_smooth(s, s.len() as int);
    let started = trim_start_char(all, '-');
    text::trim_start_char_is_end(all, '-');
    text::trim_end_char_is_start(started, '-');
    let name = dashed(s);
    let from = all.len() - started.len();
    assert forall|i: int| 0 <= i < name.len() implies name[i] == #[trigger] all[from + i] by {
        assert(name[i] == started[i]);
    }
    assert forall|i: int| 0 <= i < name.len() implies alphanumeric(#[trigger] name[i]) || name[i]
        == '-' by {
        assert(name[i] == all[from + i]);
    }
    assert forall|i: int, j: int| 0 <= i && j == i + 1 && j < name.len() implies #[trigger] name[i]
        != '-' || #[trigger] name[j] != '-' by {
        assert(name[i] == all[from + i]);
        assert(name[j] == all[from + j]);
    }
    if name.len() > 0 {
        assert(name[0] == started[0]);
    }
}

proof fn clean_names_pass(s: Seq<char>, n: int)
    requires
        clean_name(s),
        0 <= n <= s.len(),
    ensures
        dashes(s, n) == s.take(n),
    decreases n,
{
    if n > 0 {
        clean_names_pass(s, n - 1);
        assert(alphanumeric(s[n - 1]) || s[n - 1] == '-');
        if n > 1 {
            assert(s[n - 2] != '-' || s[n - 1] != '-');
            assert(s.take(n - 1).last() == s[n - 2]);
        }
        assert(s.take(n) =~= s.take(n - 1).push(s[n - 1]));
    } else {
        assert(s.take(0) =~= Seq::empty());
    }
}

/// A clean name stays as it is, so that a rule is found again by the name of its file.
pub proof fn clean_names_stay(s: Seq<char>)
    requires
        clean_name(s),
    ensures
        dashed(s) == s,
{
    clean_names_pass(s, s.len() as int);
    assert(s.take(s.len() as int) =~= s);
}

// ---------------------------------------------------------------------------------------------
// Which rules are in force
// ---------------------------------------------------------------------------------------------
proof fn rule_from_is_first(rules: Seq<RuleView>, name: Seq<char>, i: int)
    requires
        0 <= i <= rules.len(),
    ensures
        match rule_from(rules, name, i) {
            Some(k) => i <= k < rules.len() && rules[k].name == name && forall|j: int|
                i <= j < k ==> (#[trigger] rules[j]).name != name,
            None => forall|j: int| i <= j < rules.len() ==> (#[trigger] rules[j]).name != name,
        },
    decreases rules.len() - i,
{
    if i < rules.len() && rules[i].name != name {
        rule_from_is_first(rules, name, i + 1);
    }
}

/// The rule with a name.
pub open spec fn rule_of(rules: Seq<RuleView>, name: Seq<char>) -> Option<RuleView> {
    match rule_from(rules, name, 0) {
        Some(i) => Some(rules[i]),
        None => None,
    }
}

/// A rule that was put in is found, and the others are as they were.
pub proof fn rule_after_putting(rules: Seq<RuleView>, rule: RuleView, other: Seq<char>)
    ensures
        rule_of(with_rule(rules, rule), rule.name) == Some(rule),
        other != rule.name ==> rule_of(with_rule(rules, rule), other) == rule_of(rules, other),
{
    let now = with_rule(rules, rule);
    rule_from_is_first(rules, rule.name, 0);
    rule_from_is_first(rules, other, 0);
    rule_from_is_first(now, rule.name, 0);
    rule_from_is_first(now, other, 0);
    let at = match rule_from(rules, rule.name, 0) {
        Some(i) => i,
        None => rules.len() as int,
    };
    assert(now[at] == rule);
    assert forall|k: int| 0 <= k < rules.len() && k != at implies #[trigger] now[k] == rules[k] by {}
    let mine = rule_from(now, rule.name, 0)->0;
    if mine < at {
        assert(now[mine] == rules[mine]);
    }
    if other != rule.name {
        match rule_from(rules, other, 0) {
            Some(k) => {
                assert(now[k] == rules[k]);
                let j = rule_from(now, other, 0)->0;
                if j < k {
                    assert(now[j] == rules[j] || j == at);
                }
            },
            None => {
                if let Some(j) = rule_from(now, other, 0) {
                    assert(j == at || now[j] == rules[j]);
                }
            },
        }
    }
}

proof fn later_files_leave_a_rule(rules: Seq<RuleView>, files: Seq<FileView>, name: Seq<char>, k: int, n: int)
    requires
        0 <= k <= n <= files.len(),
        forall|j: int| k <= j < n ==> stem((#[trigger] files[j]).name) != Some(name),
    ensures
        rule_of(with_files(rules, files, n), name) == rule_of(with_files(rules, files, k), name),
    decreases n - k,
{
    if k < n {
        later_files_leave_a_rule(rules, files, name, k, n - 1);
        assert(stem(files[n - 1].name) != Some(name));
        if let Some(own) = stem(files[n - 1].name) {
            rule_after_putting(
                with_files(rules, files, n - 1),
                rule_named(own, files[n - 1].content),
                name,
            );
        }
    }
}

/// A rule of the project counts, whatever the rules for all projects say.
pub proof fn project_rules_come_first(
    global: Seq<FileView>,
    project: Seq<FileView>,
    name: Seq<char>,
    k: int,
)
    requires
        0 <= k < project.len(),
        stem(project[k].name) == Some(name),
        forall|j: int| k < j < project.len() ==> stem((#[trigger] project[j]).name) != Some(name),
    ensures
        rule_of(all_rules(global, project), name) == Some(rule_named(name, project[k].content)),
{
    let start = with_files(Seq::empty(), global, global.len() as int);
    rule_after_putting(
        with_files(start, project, k),
        rule_named(name, project[k].content),
        name,
    );
    later_files_leave_a_rule(start, project, name, k + 1, project.len() as int);
}

/// A rule for all projects counts where the project has none with its name.
pub proof fn global_rules_hold_otherwise(
    global: Seq<FileView>,
    project: Seq<FileView>,
    name: Seq<char>,
    k: int,
)
    requires
        0 <= k < global.len(),
        stem(global[k].name) == Some(name),
        forall|j: int| k < j < global.len() ==> stem((#[trigger] global[j]).name) != Some(name),
        forall|j: int| 0 <= j < project.len() ==> stem((#[trigger] project[j]).name) != Some(name),
    ensures
        rule_of(all_rules(global, project), name) == Some(rule_named(name, global[k].content)),
{
    let none = Seq::<RuleView>::empty();
    rule_after_putting(with_files(none, global, k), rule_named(name, global[k].content), name);
    later_files_leave_a_rule(none, global, name, k + 1, global.len() as int);
    later_files_leave_a_rule(
        with_files(none, global, global.len() as int),
        project,
        name,
        0,
        project.len() as int,
    );
}

/// Sorting rules keeps every one of them, and puts no name before one that precedes it.
pub proof fn sorting_keeps_rules(rules: Seq<RuleView>, rule: RuleView)
    ensures
        sorted_rules(rules).len() == rules.len(),
        sorted_rules(rules).contains(rule) == rules.contains(rule),
        forall|j: int, k: int|
            0 <= j < k < rules.len() ==> !precedes(
                (#[trigger] sorted_rules(rules)[k]).name,
                (#[trigger] sorted_rules(rules)[j]).name,
            ),
{
    let names = rule_names(rules);
    let n = rules.len() as int;
    order::order_is_sorted(names, n);
    let order = order_of(names, n);
    let sorted = sorted_rules(rules);
    assert forall|j: int, k: int| 0 <= j < k < rules.len() implies !precedes(
        (#[trigger] sorted[k]).name,
        (#[trigger] sorted[j]).name,
    ) by {
        assert(names[order[k]] == sorted[k].name);
        assert(names[order[j]] == sorted[j].name);
    }
    if sorted.contains(rule) {
        let k = choose|k: int| 0 <= k < sorted.len() && sorted[k] == rule;
        assert(rules[order[k]] == rule);
    }
    if rules.contains(rule) {
        let i = choose|i: int| 0 <= i < rules.len() && rules[i] == rule;
        assert(order.contains(i));
        let k = choose|k: int| 0 <= k < order.len() && order[k] == i;
        assert(sorted[k] == rule);
    }
}

/// A rule is in force if and only if it is not switched off.
pub proof fn switched_off_rules_are_hidden(
    rules: Seq<RuleView>,
    disabled: Seq<Seq<char>>,
    rule: RuleView,
    n: int,
)
    requires
        0 <= n <= rules.len(),
    ensures
        enabled_rules(rules, disabled, n).contains(rule) <==> rules.take(n).contains(rule)
            && !disabled.contains(rule.name),
    decreases n,
{
    let now = enabled_rules(rules, disabled, n);
    if n > 0 {
        switched_off_rules_are_hidden(rules, disabled, rule, n - 1);
        let before = enabled_rules(rules, disabled, n - 1);
        assert(rules.take(n) =~= rules.take(n - 1).push(rules[n - 1]));
        if now.contains(rule) {
            let k = choose|k: int| 0 <= k < now.len() && now[k] == rule;
            if k < before.len() {
                assert(before[k] == rule);
                let head = rules.take(n - 1);
                let j = choose|j: int| 0 <= j < head.len() && head[j] == rule;
                assert(rules.take(n)[j] == rule);
            } else {
                assert(rules.take(n)[n - 1] == rule);
            }
        }
        if rules.take(n).contains(rule) && !disabled.contains(rule.name) {
            let head = rules.take(n);
            let j = choose|j: int| 0 <= j < head.len() && head[j] == rule;
            if j < n - 1 {
                assert(rules.take(n - 1)[j] == rule);
                assert(before.contains(rule));
                let k = choose|k: int| 0 <= k < before.len() && before[k] == rule;
                assert(now[k] == rule);
            } else {
                assert(now[now.len() - 1] == rule);
            }
        }
    }
}

/// A skill is in force if and only if it is not switched off.
pub proof fn switched_off_skills_are_hidden(
    skills: Seq<SkillView>,
    disabled: Seq<Seq<char>>,
    skill: SkillView,
    n: int,
)
    requires
        0 <= n <= skills.len(),
    ensures
        enabled_skills(skills, disabled, n).contains(skill) <==> skills.take(n).contains(skill)
            && !disabled.contains(skill.name),
    decreases n,
{
    let now = enabled_skills(skills, disabled, n);
    if n > 0 {
        switched_off_skills_are_hidden(skills, disabled, skill, n - 1);
        let before = enabled_skills(skills, disabled, n - 1);
        assert(skills.take(n) =~= skills.take(n - 1).push(skills[n - 1]));
        if now.contains(skill) {
            let k = choose|k: int| 0 <= k < now.len() && now[k] == skill;
            if k < before.len() {
                assert(before[k] == skill);
                let head = skills.take(n - 1);
                let j = choose|j: int| 0 <= j < head.len() && head[j] == skill;
                assert(skills.take(n)[j] == skill);
            } else {
                assert(skills.take(n)[n - 1] == skill);
            }
        }
        if skills.take(n).contains(skill) && !disabled.contains(skill.name) {
            let head = skills.take(n);
            let j = choose|j: int| 0 <= j < head.len() && head[j] == skill;
            if j < n - 1 {
                assert(skills.take(n - 1)[j] == skill);
                assert(before.contains(skill));
                let k = choose|k: int| 0 <= k < before.len() && before[k] == skill;
                assert(now[k] == skill);
            } else {
                assert(now[now.len() - 1] == skill);
            }
        }
    }
}

/// Of several skills with one name the first counts, and no name comes twice.
pub proof fn first_skills_count(sources: Seq<SkillSource>, k: int, n: int)
    requires
        0 <= k < n <= sources.len(),
        skill_in(sources[k]) is Some,
        forall|j: int|
            0 <= j < k ==> (skill_in(#[trigger] sources[j]) matches Some(skill) ==> skill.name
                != skill_in(sources[k])->0.name),
    ensures
        all_skills(sources, n).contains(skill_in(sources[k])->0),
        forall|i: int, j: int|
            0 <= i < j < all_skills(sources, n).len() ==> (#[trigger] all_skills(sources, n)[i]).name
                != (#[trigger] all_skills(sources, n)[j]).name,
    decreases n,
{
    let skill = skill_in(sources[k])->0;
    let now = all_skills(sources, n);
    let before = all_skills(sources, n - 1);
    skills_differ(sources, n);
    if n - 1 > k {
        first_skills_count(sources, k, n - 1);
        let i = choose|i: int| 0 <= i < before.len() && before[i] == skill;
        assert(now[i] == skill);
    } else {
        names_come_from_places(sources, k, skill.name);
        assert(now[now.len() - 1] == skill);
    }
}

proof fn skills_differ(sources: Seq<SkillSource>, n: int)
    requires
        0 <= n <= sources.len(),
    ensures
        forall|i: int, j: int|
            0 <= i < j < all_skills(sources, n).len() ==> (#[trigger] all_skills(sources, n)[i]).name
                != (#[trigger] all_skills(sources, n)[j]).name,
    decreases n,
{
    if n > 0 {
        skills_differ(sources, n - 1);
        let now = all_skills(sources, n);
        let before = all_skills(sources, n - 1);
        assert forall|i: int, j: int| 0 <= i < j < now.len() implies (#[trigger] now[i]).name != (
        #[trigger] now[j]).name by {
            assert(now[i] == before[i]);
            if j < before.len() {
                assert(now[j] == before[j]);
            } else {
                assert(!has_skill(before, now[j].name));
            }
        }
    }
}

proof fn names_come_from_places(sources: Seq<SkillSource>, k: int, name: Seq<char>)
    requires
        0 <= k <= sources.len(),
        forall|j: int|
            0 <= j < k ==> (skill_in(#[trigger] sources[j]) matches Some(skill) ==> skill.name != name),
    ensures
        !has_skill(all_skills(sources, k), name),
    decreases k,
{
    if k > 0 {
        names_come_from_places(sources, k - 1, name);
        let now = all_skills(sources, k);
        let before = all_skills(sources, k - 1);
        assert(skill_in(sources[k - 1]) matches Some(skill) ==> skill.name != name);
        assert forall|i: int| 0 <= i < now.len() implies (#[trigger] now[i]).name != name by {
            if i < before.len() {
                assert(now[i] == before[i]);
            }
        }
    }
}

// ---------------------------------------------------------------------------------------------
// Writing and reading
// ---------------------------------------------------------------------------------------------
/// Whether a line can stand in the front matter: it has no line end in it, and does not begin with a
/// dash.
pub open spec fn front_line(line: Seq<char>) -> bool {
    !line.contains('\n') && (line.len() > 0 ==> line[0] != '-')
}

/// Whether no line end in a text is followed by a dash, if a line end follows the text.
spec fn calm(s: Seq<char>) -> bool {
    forall|k: int| 0 <= k < s.len() && #[trigger] s[k] == '\n' ==> s.push('\n')[k + 1] != '-'
}

proof fn joined_lines_are_calm(ls: Seq<Seq<char>>)
    requires
        forall|i: int| 0 <= i < ls.len() ==> front_line(#[trigger] ls[i]),
    ensures
        calm(join(ls, seq!['\n'])),
    decreases ls.len(),
{
    let s = join(ls, seq!['\n']);
    if ls.len() == 1 {
        assert(front_line(ls[0]));
        assert forall|k: int| 0 <= k < s.len() && #[trigger] s[k] == '\n' implies s.push('\n')[k + 1]
            != '-' by {
            assert(ls[0].contains(s[k]));
        }
    } else if ls.len() > 1 {
        let front = ls.drop_last();
        assert forall|i: int| 0 <= i < front.len() implies front_line(#[trigger] front[i]) by {
            assert(front[i] == ls[i]);
        }
        joined_lines_are_calm(front);
        let start = join(front, seq!['\n']);
        let last = ls[ls.len() - 1];
        assert(front_line(last));
        assert(s == start + seq!['\n'] + last);
        assert forall|k: int| 0 <= k < s.len() && #[trigger] s[k] == '\n' implies s.push('\n')[k + 1]
            != '-' by {
            let next = s.push('\n')[k + 1];
            if k < start.len() {
                assert(start[k] == '\n');
                assert(start.push('\n')[k + 1] == next);
            } else if k == start.len() {
                if last.len() > 0 {
                    assert(next == last[0]);
                } else {
                    assert(next == '\n');
                }
            } else {
                assert(s[k] == last[k - start.len() - 1]);
                assert(last.contains(s[k]));
            }
        }
    }
}

/// The lines of a text that was joined from lines, with an empty one before them.
proof fn lines_of_front(front: Seq<Seq<char>>)
    requires
        forall|i: int| 0 <= i < front.len() ==> front_line(#[trigger] front[i]),
        forall|i: int| 0 <= i < front.len() ==> (#[trigger] front[i]).len() > 0 && front[i].last() != '\r',
    ensures
        ({
            let ls = lines("\n"@ + join(front, "\n"@));
            &&& ls.len() == front.len() + 1
            &&& ls[0].len() == 0
            &&& forall|i: int| 0 <= i < front.len() ==> #[trigger] ls[i + 1] == front[i]
        }) || front.len() == 0,
        front.len() == 0 ==> lines("\n"@ + join(front, "\n"@)) == seq![Seq::<char>::empty()],
{
    reveal_strlit("\n");
    assert("\n"@ =~= seq!['\n']);
    let none = Seq::<char>::empty();
    let s = seq!['\n'] + join(front, seq!['\n']);
    if front.len() == 0 {
        assert(s =~= seq!['\n']);
        assert(s.drop_last() =~= none);
        reveal_with_fuel(split, 2);
        assert(split(s, '\n') =~= seq![none, none]);
        assert(lines(s) =~= seq![none]);
    } else {
        let all = seq![none] + front;
        joining_after(none, front);
        assert(join(all, seq!['\n']) == none + seq!['\n'] + join(front, seq!['\n']));
        assert(none + seq!['\n'] + join(front, seq!['\n']) =~= s);
        assert forall|i: int| 0 <= i < all.len() implies !(#[trigger] all[i]).contains('\n') by {
            if i > 0 {
                assert(front_line(front[i - 1]));
            }
        }
        text::split_of_join(all, '\n');
        let ls = lines(s);
        assert(all.last() == front[front.len() - 1]);
        assert(all.last().len() > 0);
        assert(ls.len() == all.len());
        assert(ls[0] == without_cr(all[0]));
        assert forall|i: int| 0 <= i < front.len() implies #[trigger] ls[i + 1] == front[i] by {
            assert(all[i + 1] == front[i]);
            assert(front[i].len() > 0 && front[i].last() != '\r');
            if i + 1 < all.len() - 1 {
                assert(ls[i + 1] == without_cr(all[i + 1]));
            } else {
                assert(ls[i + 1] == all.last());
            }
        }
    }
}

/// Joining a part and others is joining the part with the others joined.
proof fn joining_after(head: Seq<char>, parts: Seq<Seq<char>>)
    requires
        parts.len() > 0,
    ensures
        join(seq![head] + parts, seq!['\n']) == head + seq!['\n'] + join(parts, seq!['\n']),
    decreases parts.len(),
{
    let all = seq![head] + parts;
    assert(all.last() == parts.last());
    assert(all.drop_last() =~= seq![head] + parts.drop_last());
    if parts.len() == 1 {
        assert(all.drop_last() =~= seq![head]);
        reveal_with_fuel(join, 2);
        assert(join(all, seq!['\n']) =~= head + seq!['\n'] + parts[0]);
    } else {
        joining_after(head, parts.drop_last());
        assert(join(all, seq!['\n']) =~= head + seq!['\n'] + join(parts, seq!['\n']));
    }
}

/// Where the front matter of a rule ends, as it is written.
proof fn front_is_found(front: Seq<Seq<char>>, rule: Seq<char>)
    requires
        forall|i: int| 0 <= i < front.len() ==> front_line(#[trigger] front[i]),
    ensures
        ({
            let content = rule_text(front, rule);
            let joined = "\n"@ + join(front, "\n"@);
            &&& front_end(content) == Some(joined.len() as int)
            &&& content.skip(3).take(joined.len() as int) == joined
            &&& content.skip(3).skip(joined.len() as int + 4) == "\n\n"@ + rule
        }),
{
    reveal_strlit("\n");
    reveal_strlit("---");
    reveal_strlit("---\n");
    reveal_strlit("\n---");
    reveal_strlit("\n---\n\n");
    reveal_strlit("\n\n");
    assert("\n"@ =~= seq!['\n']);
    let content = rule_text(front, rule);
    let middle = join(front, seq!['\n']);
    let joined = seq!['\n'] + middle;
    let mark = "\n---"@;
    let body = content.skip(3);
    assert(body =~= joined + mark + "\n\n"@ + rule);
    assert(content.take(3) =~= "---"@);
    assert(has_prefix(content, "---"@));
    let none = Seq::<char>::empty();
    let all = seq![none] + front;
    if front.len() > 0 {
        joining_after(none, front);
        assert(none + seq!['\n'] + middle =~= joined);
        assert forall|i: int| 0 <= i < all.len() implies front_line(#[trigger] all[i]) by {
            if i > 0 {
                assert(all[i] == front[i - 1]);
            }
        }
        joined_lines_are_calm(all);
        assert(join(all, seq!['\n']) =~= joined);
        assert(calm(joined));
    } else {
        assert(joined =~= seq!['\n']);
        assert(calm(joined));
    }
    let at = joined.len() as int;
    assert(body.subrange(at, at + 4) =~= mark);
    assert(occurs_at(body, mark, at));
    assert forall|j: int| 0 <= j < at implies !#[trigger] occurs_at(body, mark, j) by {
        if occurs_at(body, mark, j) {
            let piece = body.subrange(j, j + 4);
            assert(piece[0] == mark[0] && piece[1] == mark[1]);
            assert(joined[j] == '\n');
            assert(joined.push('\n')[j + 1] == body[j + 1]);
            assert(body[j + 1] == '-');
        }
    }
    text::find_is_at(body, mark, 0, at);
    assert(body.take(at) =~= joined);
    assert(body.skip(at + 4) =~= "\n\n"@ + rule);
}

/// Whether a value is written as it is: without quotes and backslashes.
pub open spec fn plain_value(value: Seq<char>) -> bool {
    !value.contains('"') && !value.contains('\\') && !value.contains('\n')
}

/// Replacing what does not occur changes nothing.
proof fn replacing_nothing(s: Seq<char>, c: char, w: Seq<char>)
    requires
        !s.contains(c),
    ensures
        replaced(s, seq![c], w) == s,
{
    text::find_is_first(s, seq![c], 0);
    if let Some(k) = find_from(s, seq![c], 0) {
        assert(s.subrange(k, k + 1)[0] == c);
        assert(s[k] == c);
    }
}

proof fn trimmed_part(s: Seq<char>, c: char)
    requires
        !s.contains(c),
    ensures
        !trim(s).contains(c),
    decreases s.len(),
{
    let started = text::trim_start(s);
    trim_start_part(s, c);
    trim_end_part(started, c);
}

proof fn trim_start_part(s: Seq<char>, c: char)
    requires
        !s.contains(c),
    ensures
        !text::trim_start(s).contains(c),
    decreases s.len(),
{
    if s.len() > 0 && text::white(s[0]) {
        assert forall|k: int| 0 <= k < s.drop_first().len() implies s.drop_first()[k] != c by {
            assert(s.drop_first()[k] == s[k + 1]);
        }
        trim_start_part(s.drop_first(), c);
    }
}

proof fn trim_end_part(s: Seq<char>, c: char)
    requires
        !s.contains(c),
    ensures
        !text::trim_end(s).contains(c),
    decreases s.len(),
{
    if s.len() > 0 && text::white(s.last()) {
        assert forall|k: int| 0 <= k < s.drop_last().len() implies s.drop_last()[k] != c by {
            assert(s.drop_last()[k] == s[k]);
        }
        trim_end_part(s.drop_last(), c);
    }
}

/// A plain value in quotes, and what is read of it behind a space.
proof fn quoting_is_undone(value: Seq<char>)
    requires
        plain_value(value),
    ensures
        yaml(value) == seq!['"'] + value + seq!['"'],
        unquoted(seq![' '] + yaml(value)) == value,
{
    reveal_strlit("\"");
    assert("\""@ =~= seq!['"']);
    replacing_nothing(value, '\\', seq!['\\', '\\']);
    replacing_nothing(value, '"', seq!['\\', '"']);
    let quoted = yaml(value);
    assert(quoted =~= seq!['"'] + value + seq!['"']);
    let spaced = seq![' '] + quoted;
    assert(text::white(' '));
    assert(!text::white('"'));
    assert(spaced.drop_first() =~= quoted);
    assert(quoted[0] == '"');
    assert(text::trim_start(quoted) == quoted);
    assert(text::trim_start(spaced) == quoted);
    assert(quoted.last() == '"');
    assert(text::trim_end(quoted) == quoted);
    assert(trim(spaced) == quoted);
    let rest = value + seq!['"'];
    assert(quoted.drop_first() =~= rest);
    if value.len() > 0 {
        assert(value.contains(value[0]));
        assert(rest[0] == value[0]);
        assert(trim_start_char(rest, '"') == rest);
        assert(rest.drop_last() =~= value);
        assert(value.contains(value.last()));
        assert(trim_end_char(value, '"') == value);
        assert(trim_end_char(rest, '"') == value);
    } else {
        assert(rest =~= seq!['"']);
        assert(rest.drop_first() =~= value);
        assert(trim_start_char(value, '"') == value);
        assert(trim_start_char(rest, '"') == value);
        assert(trim_end_char(value, '"') == value);
    }
    assert(trim_start_char(quoted, '"') == trim_start_char(rest, '"'));
}

/// A value that a rule may have in a field, so that it is read back: none, or a plain one.
pub open spec fn plain_field(value: Option<Seq<char>>) -> bool {
    value matches Some(value) ==> plain_value(value)
}

/// What is read back of a field: the value without space around it; a blank one is none.
pub open spec fn kept_value(value: Option<Seq<char>>) -> Seq<char> {
    match value {
        Some(value) => trim(value),
        None => Seq::empty(),
    }
}

/// The line for a field begins with its key, and has the value behind it.
proof fn field_line(key: Seq<char>, value: Seq<char>)
    requires
        plain_value(value),
        key.len() > 1,
        key.last() == ' ',
        key[0] != '-',
        !key.contains('\n'),
    ensures
        ({
            let line = key + yaml(trim(value));
            &&& front_line(line)
            &&& line.len() > 0
            &&& line.last() != '\r'
            &&& has_prefix(line, key.drop_last())
            &&& unquoted(line.skip(key.len() - 1)) == trim(value)
            &&& line[0] == key[0]
        }),
{
    let kept = trim(value);
    trimmed_part(value, '"');
    trimmed_part(value, '\\');
    trimmed_part(value, '\n');
    quoting_is_undone(kept);
    let line = key + yaml(kept);
    assert(yaml(kept).last() == '"');
    assert(line.last() == '"');
    assert forall|k: int| 0 <= k < line.len() implies line[k] != '\n' by {
        if k < key.len() {
            assert(key.contains(line[k]));
        } else {
            let c = yaml(kept)[k - key.len()];
            assert(line[k] == c);
            if c == '\n' {
                assert(kept[k - key.len() - 1] == '\n');
                assert(kept.contains('\n'));
            }
        }
    }
    assert(line.take(key.len() - 1) =~= key.drop_last());
    assert(line.skip(key.len() - 1) =~= seq![' '] + yaml(kept));
}

/// A rule is read back as it was written: its text, but for line ends before it, and its fields, but
/// for space around them. The values of the fields are plain.
#[verifier::rlimit(60)]
pub proof fn written_rules_are_read_back(
    name: Seq<char>,
    rule: Seq<char>,
    globs: Option<Seq<char>>,
    regex: Option<Seq<char>>,
    description: Option<Seq<char>>,
    always_apply: Option<bool>,
)
    requires
        plain_field(globs),
        plain_field(regex),
        plain_field(description),
    ensures
        rule_named(name, rule_text(front_lines(globs, regex, description, always_apply), rule)) == (
        RuleView {
            name,
            rule: trim_start_char(rule, '\n'),
            description: kept_value(description),
            globs: kept_value(globs),
            regex: kept_value(regex),
            always_apply,
        }),
{
    let front = front_lines(globs, regex, description, always_apply);
    let content = rule_text(front, rule);
    front_fits(globs, regex, description, always_apply);
    front_is_found(front, rule);
    lines_of_front(front);
    let joined = "\n"@ + join(front, "\n"@);
    let ls = lines(joined);
    reveal_strlit("\n\n");
    let rest = "\n\n"@ + rule;
    assert(rest.drop_first().drop_first() =~= rule);
    assert(trim_start_char(rest, '\n') == trim_start_char(rule, '\n')) by {
        reveal_with_fuel(trim_start_char, 3);
    }
    assert(body_of(content) == Some(trim_start_char(rule, '\n')));
    fields_are_found(globs, regex, description, always_apply, ls);
    assert(or_empty(field_of(content, "globs"@)) =~= kept_value(globs));
    assert(or_empty(field_of(content, "regex"@)) =~= kept_value(regex));
    assert(or_empty(field_of(content, "description"@)) =~= kept_value(description));
}

/// The lines of the front matter of a rule can stand there.
proof fn front_fits(
    globs: Option<Seq<char>>,
    regex: Option<Seq<char>>,
    description: Option<Seq<char>>,
    always_apply: Option<bool>,
)
    requires
        plain_field(globs),
        plain_field(regex),
        plain_field(description),
    ensures
        forall|i: int|
            0 <= i < front_lines(globs, regex, description, always_apply).len() ==> front_line(
                #[trigger] front_lines(globs, regex, description, always_apply)[i],
            ),
        forall|i: int|
            0 <= i < front_lines(globs, regex, description, always_apply).len() ==> (
            #[trigger] front_lines(globs, regex, description, always_apply)[i]).len() > 0
                && front_lines(globs, regex, description, always_apply)[i].last() != '\r',
{
    reveal_strlit("globs: ");
    reveal_strlit("regex: ");
    reveal_strlit("description: ");
    reveal_strlit("alwaysApply: true");
    reveal_strlit("alwaysApply: false");
    if let Some(value) = globs {
        field_line("globs: "@, value);
    }
    if let Some(value) = regex {
        field_line("regex: "@, value);
    }
    if let Some(value) = description {
        field_line("description: "@, value);
    }
    assert forall|k: int| 0 <= k < "alwaysApply: true"@.len() implies "alwaysApply: true"@[k]
        != '\n' by {}
    assert forall|k: int| 0 <= k < "alwaysApply: false"@.len() implies "alwaysApply: false"@[k]
        != '\n' by {}
}

/// Looking for a key passes over an empty line and over lines that begin with another letter.
proof fn other_lines_are_passed(ls: Seq<Seq<char>>, key: Seq<char>, i: int)
    requires
        0 <= i < ls.len(),
        key.len() > 0,
        ls[i].len() == 0 || ls[i][0] != key[0],
    ensures
        field_in(ls, key, i) == field_in(ls, key, i + 1),
{
    if has_prefix(ls[i], key) {
        assert(ls[i].take(key.len() as int)[0] == key[0]);
    }
}

/// The fields of the front matter of a rule are found in its lines.
#[verifier::rlimit(60)]
proof fn fields_are_found(
    globs: Option<Seq<char>>,
    regex: Option<Seq<char>>,
    description: Option<Seq<char>>,
    always_apply: Option<bool>,
    ls: Seq<Seq<char>>,
)
    requires
        plain_field(globs),
        plain_field(regex),
        plain_field(description),
        ({
            let front = front_lines(globs, regex, description, always_apply);
            &&& ls.len() == front.len() + 1
            &&& ls[0].len() == 0
            &&& forall|i: int| 0 <= i < front.len() ==> #[trigger] ls[i + 1] == front[i]
        }),
    ensures
        or_empty(field_in(ls, "globs"@ + ":"@, 0)) == kept_value(globs),
        or_empty(field_in(ls, "regex"@ + ":"@, 0)) == kept_value(regex),
        or_empty(field_in(ls, "description"@ + ":"@, 0)) == kept_value(description),
        truth_of(field_in(ls, "alwaysApply"@ + ":"@, 0)) == always_apply,
{
    reveal_strlit(":");
    reveal_strlit("globs");
    reveal_strlit("regex");
    reveal_strlit("description");
    reveal_strlit("alwaysApply");
    reveal_strlit("globs: ");
    reveal_strlit("regex: ");
    reveal_strlit("description: ");
    reveal_strlit("alwaysApply: true");
    reveal_strlit("alwaysApply: false");
    reveal_strlit("true");
    reveal_strlit("false");
    let g = "globs"@ + ":"@;
    let x = "regex"@ + ":"@;
    let d = "description"@ + ":"@;
    let a = "alwaysApply"@ + ":"@;
    assert(g =~= "globs: "@.drop_last());
    assert(x =~= "regex: "@.drop_last());
    assert(d =~= "description: "@.drop_last());
    assert(a[0] == 'a' && g[0] == 'g' && x[0] == 'r' && d[0] == 'd');
    let none = Seq::<Seq<char>>::empty();
    let first = with_field(none, "globs: "@, globs);
    let second = with_field(first, "regex: "@, regex);
    let third = with_field(second, "description: "@, description);
    let front = with_truth(third, always_apply);
    assert(front == front_lines(globs, regex, description, always_apply));
    let n1 = first.len() as int;
    let n2 = second.len() as int;
    let n3 = third.len() as int;
    other_lines_are_passed(ls, g, 0);
    other_lines_are_passed(ls, x, 0);
    other_lines_are_passed(ls, d, 0);
    other_lines_are_passed(ls, a, 0);
    if n1 > 0 {
        let value = globs->0;
        field_line("globs: "@, value);
        assert(front[0] == "globs: "@ + yaml(trim(value)));
        assert(ls[1] == front[0]);
        assert(ls[1][0] == 'g');
        assert(field_in(ls, g, 1) == Some(unquoted(ls[1].skip(g.len() as int))));
        other_lines_are_passed(ls, x, 1);
        other_lines_are_passed(ls, d, 1);
        other_lines_are_passed(ls, a, 1);
    }
    if n2 > n1 {
        let value = regex->0;
        field_line("regex: "@, value);
        assert(front[n1] == "regex: "@ + yaml(trim(value)));
        assert(ls[n1 + 1] == front[n1]);
        assert(ls[n1 + 1][0] == 'r');
        assert(field_in(ls, x, n1 + 1) == Some(unquoted(ls[n1 + 1].skip(x.len() as int))));
        other_lines_are_passed(ls, g, n1 + 1);
        other_lines_are_passed(ls, d, n1 + 1);
        other_lines_are_passed(ls, a, n1 + 1);
    }
    if n3 > n2 {
        let value = description->0;
        field_line("description: "@, value);
        assert(front[n2] == "description: "@ + yaml(trim(value)));
        assert(ls[n2 + 1] == front[n2]);
        assert(ls[n2 + 1][0] == 'd');
        assert(field_in(ls, d, n2 + 1) == Some(unquoted(ls[n2 + 1].skip(d.len() as int))));
        other_lines_are_passed(ls, g, n2 + 1);
        other_lines_are_passed(ls, x, n2 + 1);
        other_lines_are_passed(ls, a, n2 + 1);
    }
    if let Some(truth) = always_apply {
        assert(ls[n3 + 1] == front[n3]);
        assert(ls[n3 + 1][0] == 'a');
        other_lines_are_passed(ls, g, n3 + 1);
        other_lines_are_passed(ls, x, n3 + 1);
        other_lines_are_passed(ls, d, n3 + 1);
        truth_is_read(truth);
        assert(field_in(ls, a, n3 + 1) == Some(unquoted(ls[n3 + 1].skip(a.len() as int))));
    }
    assert(kept_value(globs).len() == 0 ==> kept_value(globs) =~= Seq::<char>::empty());
    assert(kept_value(regex).len() == 0 ==> kept_value(regex) =~= Seq::<char>::empty());
    assert(kept_value(description).len() == 0 ==> kept_value(description) =~= Seq::<char>::empty());
}

/// A truth value is read back.
proof fn truth_is_read(truth: bool)
    ensures
        ({
            let line = if truth {
                "alwaysApply: true"@
            } else {
                "alwaysApply: false"@
            };
            let key = "alwaysApply"@ + ":"@;
            &&& has_prefix(line, key)
            &&& truth_of(Some(unquoted(line.skip(key.len() as int)))) == Some(truth)
        }),
{
    reveal_strlit(":");
    reveal_strlit("alwaysApply");
    reveal_strlit("alwaysApply: true");
    reveal_strlit("alwaysApply: false");
    reveal_strlit("true");
    reveal_strlit("false");
    let line = if truth {
        "alwaysApply: true"@
    } else {
        "alwaysApply: false"@
    };
    let word = if truth {
        "true"@
    } else {
        "false"@
    };
    let key = "alwaysApply"@ + ":"@;
    assert(line.take(key.len() as int) =~= key);
    let rest = line.skip(key.len() as int);
    assert(rest.drop_first() =~= word);
    assert(text::white(' '));
    assert(!text::white('t') && !text::white('f') && !text::white('e'));
    assert(text::trim_start(word) == word);
    assert(text::trim_start(rest) == word);
    assert(text::trim_end(word) == word);
    assert(trim_start_char(word, '"') == word);
    assert(trim_end_char(word, '"') == word);
    assert("true"@.len() != "false"@.len());
}

} // verus!
