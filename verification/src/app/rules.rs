//! Rules and skills: how they are written and read, and which of them are in force.

use crate::app::agent;
use crate::json;
use crate::json::{fields_view, items_view, json_parsed, json_pretty, FieldView, Json, JsonView};
use crate::order;
use crate::order::{ints, order_of};
use crate::text;
use crate::text::{
    find_from, has_prefix, has_suffix, join, lines, lowercase, opt_text, or_empty, replaced, rows,
    trim, trim_end_char, trim_start_char, views,
};
use vstd::prelude::*;

verus! {

/// A rule as the agent sees it.
#[derive(Debug)]
pub struct RuleContext {
    pub name: String,
    pub rule: String,
    pub description: String,
    pub globs: String,
    pub regex: String,
    pub always_apply: Option<bool>,
}

/// A `RuleContext` with its texts as characters.
pub ghost struct RuleView {
    pub name: Seq<char>,
    pub rule: Seq<char>,
    pub description: Seq<char>,
    pub globs: Seq<char>,
    pub regex: Seq<char>,
    pub always_apply: Option<bool>,
}

impl View for RuleContext {
    type V = RuleView;

    open spec fn view(&self) -> RuleView {
        RuleView {
            name: self.name@,
            rule: self.rule@,
            description: self.description@,
            globs: self.globs@,
            regex: self.regex@,
            always_apply: self.always_apply,
        }
    }
}

/// The views of rules.
pub open spec fn rules_view(rules: Seq<RuleContext>) -> Seq<RuleView> {
    Seq::new(rules.len(), |i: int| rules[i]@)
}

/// A skill as the agent sees it.
#[derive(Debug)]
pub struct SkillContext {
    pub name: String,
    pub description: String,
}

/// A `SkillContext` with its texts as characters.
pub ghost struct SkillView {
    pub name: Seq<char>,
    pub description: Seq<char>,
}

impl View for SkillContext {
    type V = SkillView;

    open spec fn view(&self) -> SkillView {
        SkillView { name: self.name@, description: self.description@ }
    }
}

/// The views of skills.
pub open spec fn skills_view(skills: Seq<SkillContext>) -> Seq<SkillView> {
    Seq::new(skills.len(), |i: int| skills[i]@)
}

// ---------------------------------------------------------------------------------------------
// Front matter
// ---------------------------------------------------------------------------------------------
/// Where the front matter of a text ends, counted from behind its first line of dashes.
pub open spec fn front_end(content: Seq<char>) -> Option<int> {
    if has_prefix(content, "---"@) {
        find_from(content.skip(3), "\n---"@, 0)
    } else {
        None
    }
}

/// What follows the front matter of a text.
pub open spec fn body_of(content: Seq<char>) -> Option<Seq<char>> {
    match front_end(content) {
        Some(end) => Some(trim_start_char(content.skip(3).skip(end + 4), '\n')),
        None => None,
    }
}

/// A value without the quotes around it.
pub open spec fn unquoted(value: Seq<char>) -> Seq<char> {
    trim_end_char(trim_start_char(trim(value), '"'), '"')
}

/// The value of a field in lines from `i` on.
pub open spec fn field_in(ls: Seq<Seq<char>>, key: Seq<char>, i: int) -> Option<Seq<char>>
    decreases ls.len() - i,
{
    if i < 0 || i >= ls.len() {
        None
    } else if has_prefix(ls[i], key) {
        Some(unquoted(ls[i].skip(key.len() as int)))
    } else {
        field_in(ls, key, i + 1)
    }
}

/// The value of a field of the front matter.
pub open spec fn field_of(content: Seq<char>, field: Seq<char>) -> Option<Seq<char>> {
    match front_end(content) {
        Some(end) => field_in(lines(content.skip(3).take(end)), field + ":"@, 0),
        None => None,
    }
}

/// A truth value in words.
pub open spec fn truth_of(value: Option<Seq<char>>) -> Option<bool> {
    match value {
        Some(value) => if value == "true"@ {
            Some(true)
        } else if value == "false"@ {
            Some(false)
        } else {
            None
        },
        None => None,
    }
}

/// Where the front matter of a text ends, counted from behind its first line of dashes.
fn find_front_end(chars: &[char]) -> (r: Option<usize>)
    ensures
        match r {
            Some(end) => front_end(chars@) == Some(end as int) && end + 7 <= chars@.len(),
            None => front_end(chars@) is None,
        },
{
    if !text::starts_with(chars, "---") {
        return None;
    }
    proof {
        reveal_strlit("---");
        reveal_strlit("\n---");
    }
    let total: usize = chars.len();
    let rest = text::part(chars, 3, total);
    assert(rest@ =~= chars@.skip(3));
    let mark = text::chars_of("\n---");
    text::find(rest.as_slice(), mark.as_slice(), 0)
}

/// What follows the front matter of a text.
pub fn rule_body(content: &str) -> (r: Option<String>)
    ensures
        opt_text(r) == body_of(content@),
{
    let chars = text::chars_of(content);
    let total: usize = chars.len();
    match find_front_end(chars.as_slice()) {
        Some(end) => {
            let rest = text::part(chars.as_slice(), end + 7, total);
            assert(rest@ =~= content@.skip(3).skip(end + 4));
            let body = text::trimmed_start_char(rest.as_slice(), '\n');
            Some(text::string_of(body.as_slice()))
        },
        None => None,
    }
}

/// The value of a field of the front matter.
pub fn frontmatter_field(content: &str, field: &str) -> (r: Option<String>)
    ensures
        opt_text(r) == field_of(content@, field@),
{
    let chars = text::chars_of(content);
    let total: usize = chars.len();
    let end = match find_front_end(chars.as_slice()) {
        Some(end) => end,
        None => return None,
    };
    let front = text::part(chars.as_slice(), 3, end + 3);
    assert(front@ =~= content@.skip(3).take(end as int));
    let key = text::glue(field, ":");
    let key_chars = text::chars_of(key.as_str());
    let ls = text::lines_of(front.as_slice());
    let ghost all = lines(front@);
    let mut i: usize = 0;
    assert(rows(ls@).len() == ls@.len());
    while i < ls.len()
        invariant
            i <= ls@.len(),
            all == rows(ls@),
            key@ == key_chars@,
            field_of(content@, field@) == field_in(all, key@, 0),
            field_in(all, key@, 0) == field_in(all, key@, i as int),
        decreases ls@.len() - i,
    {
        assert(all[i as int] == ls@[i as int]@);
        if text::starts_with(ls[i].as_slice(), key.as_str()) {
            let value = text::part(ls[i].as_slice(), key_chars.len(), ls[i].len());
            assert(value@ =~= all[i as int].skip(key@.len() as int));
            let trimmed = text::trimmed(value.as_slice());
            let started = text::trimmed_start_char(trimmed.as_slice(), '"');
            let ended = text::trimmed_end_char(started.as_slice(), '"');
            return Some(text::string_of(ended.as_slice()));
        }
        i += 1;
    }
    None
}

/// A truth value in words.
pub fn parse_truth(value: &Option<String>) -> (r: Option<bool>)
    ensures
        r == truth_of(opt_text(*value)),
{
    match value {
        Some(value) => if text::same(value.as_str(), "true") {
            Some(true)
        } else if text::same(value.as_str(), "false") {
            Some(false)
        } else {
            None
        },
        None => None,
    }
}

/// The truth value of a field of the front matter.
pub fn frontmatter_bool(content: &str, field: &str) -> (r: Option<bool>)
    ensures
        r == truth_of(field_of(content@, field@)),
{
    parse_truth(&frontmatter_field(content, field))
}

// ---------------------------------------------------------------------------------------------
// Names and values
// ---------------------------------------------------------------------------------------------
/// Whether a character is a letter or a digit of ASCII.
pub open spec fn alphanumeric(c: char) -> bool {
    'a' <= c <= 'z' || 'A' <= c <= 'Z' || '0' <= c <= '9'
}

/// The first `n` characters, with a dash for each run of characters that are not letters or digits.
pub open spec fn dashes(s: Seq<char>, n: int) -> Seq<char>
    decreases n,
{
    if n <= 0 {
        Seq::empty()
    } else {
        let before = dashes(s, n - 1);
        if alphanumeric(s[n - 1]) {
            before.push(s[n - 1])
        } else if before.len() > 0 && before.last() == '-' {
            before
        } else {
            before.push('-')
        }
    }
}

/// A text as a name: with a dash for each run of characters that are not letters or digits, and none at
/// the ends.
pub open spec fn dashed(s: Seq<char>) -> Seq<char> {
    trim_end_char(trim_start_char(dashes(s, s.len() as int), '-'), '-')
}

/// The name of the file for a rule.
pub open spec fn safe_name(name: Seq<char>) -> Seq<char> {
    dashed(lowercase(name))
}

/// A text as a name.
pub fn dash_name(lower: &str) -> (r: String)
    ensures
        r@ == dashed(lower@),
{
    let s = text::chars_of(lower);
    let mut out: Vec<char> = Vec::new();
    let mut i: usize = 0;
    assert(out@ =~= Seq::<char>::empty());
    while i < s.len()
        invariant
            i <= s@.len(),
            out@ == dashes(s@, i as int),
        decreases s@.len() - i,
    {
        let c = s[i];
        if ('a' <= c && c <= 'z') || ('A' <= c && c <= 'Z') || ('0' <= c && c <= '9') {
            out.push(c);
        } else if out.len() == 0 || out[out.len() - 1] != '-' {
            out.push('-');
        }
        i += 1;
    }
    let started = text::trimmed_start_char(out.as_slice(), '-');
    let ended = text::trimmed_end_char(started.as_slice(), '-');
    text::string_of(ended.as_slice())
}

/// The name of the file for a rule.
pub fn sanitize_rule_name(name: &str) -> (r: String)
    ensures
        r@ == safe_name(name@),
{
    dash_name(text::to_lowercase(name).as_str())
}

/// A value in quotes.
pub open spec fn yaml(value: Seq<char>) -> Seq<char> {
    "\""@ + replaced(replaced(value, seq!['\\'], seq!['\\', '\\']), seq!['"'], seq!['\\', '"'])
        + "\""@
}

/// A value in quotes.
pub fn yaml_str(value: &[char]) -> (r: String)
    ensures
        r@ == yaml(value@),
{
    let backslash: [char; 1] = ['\\'];
    let two: [char; 2] = ['\\', '\\'];
    let quote: [char; 1] = ['"'];
    let escaped: [char; 2] = ['\\', '"'];
    assert(backslash@ =~= seq!['\\']);
    assert(two@ =~= seq!['\\', '\\']);
    assert(quote@ =~= seq!['"']);
    assert(escaped@ =~= seq!['\\', '"']);
    let first = text::replace(value, backslash.as_slice(), two.as_slice());
    let second = text::replace(first.as_slice(), quote.as_slice(), escaped.as_slice());
    text::glue3("\"", text::string_of(second.as_slice()).as_str(), "\"")
}

// ---------------------------------------------------------------------------------------------
// Writing rules
// ---------------------------------------------------------------------------------------------
/// A rule to be written.
pub struct RuleSpec<'a> {
    pub name: &'a str,
    pub rule: &'a str,
    pub description: Option<&'a str>,
    pub globs: Option<&'a str>,
    pub regex: Option<&'a str>,
    pub always_apply: Option<bool>,
    pub scope: Option<&'a str>,
}

/// A text that may be missing.
pub open spec fn opt_str(s: Option<&str>) -> Option<Seq<char>> {
    match s {
        Some(s) => Some(s@),
        None => None,
    }
}

/// The lines with one for a field, if it has a value that is not blank.
pub open spec fn with_field(
    ls: Seq<Seq<char>>,
    key: Seq<char>,
    value: Option<Seq<char>>,
) -> Seq<Seq<char>> {
    match value {
        Some(value) => if trim(value).len() > 0 {
            ls.push(key + yaml(trim(value)))
        } else {
            ls
        },
        None => ls,
    }
}

/// The lines with one for whether the rule always applies, if that is said.
pub open spec fn with_truth(ls: Seq<Seq<char>>, value: Option<bool>) -> Seq<Seq<char>> {
    match value {
        Some(true) => ls.push("alwaysApply: true"@),
        Some(false) => ls.push("alwaysApply: false"@),
        None => ls,
    }
}

/// The lines of the front matter of a rule.
pub open spec fn front_lines(
    globs: Option<Seq<char>>,
    regex: Option<Seq<char>>,
    description: Option<Seq<char>>,
    always_apply: Option<bool>,
) -> Seq<Seq<char>> {
    let first = with_field(Seq::empty(), "globs: "@, globs);
    let second = with_field(first, "regex: "@, regex);
    let third = with_field(second, "description: "@, description);
    with_truth(third, always_apply)
}

/// A rule as it is written, with the lines of its front matter.
pub open spec fn rule_text(front: Seq<Seq<char>>, rule: Seq<char>) -> Seq<char> {
    "---\n"@ + join(front, "\n"@) + "\n---\n\n"@ + rule
}

/// A rule as it is written: the name of its file, what stands in it, whether it holds for all projects,
/// and what is said once it is written.
#[derive(Debug)]
pub struct RuleBlock {
    pub file_name: String,
    pub content: String,
    pub global: bool,
    pub said: String,
}

/// Adds a line for a field, if it has a value that is not blank.
fn push_field(ls: &mut Vec<String>, key: &str, value: Option<&str>)
    ensures
        views(final(ls)@) == with_field(views(old(ls)@), key@, opt_str(value)),
{
    if let Some(value) = value {
        let trimmed = text::trimmed(text::chars_of(value).as_slice());
        if trimmed.len() > 0 {
            let ghost before = views(ls@);
            let line = text::glue(key, yaml_str(trimmed.as_slice()).as_str());
            ls.push(line);
            assert(views(ls@) =~= before.push(line@));
        }
    }
}

/// A rule as it is written. Its name must have a letter or a digit.
pub fn create_rule_block(spec: &RuleSpec) -> (r: Result<RuleBlock, String>)
    ensures
        match r {
            Ok(block) => {
                &&& safe_name(spec.name@).len() > 0
                &&& block.file_name@ == safe_name(spec.name@) + ".md"@
                &&& block.content@ == rule_text(
                    front_lines(
                        opt_str(spec.globs),
                        opt_str(spec.regex),
                        opt_str(spec.description),
                        spec.always_apply,
                    ),
                    spec.rule@,
                )
                &&& block.global == (opt_str(spec.scope) == Some("global"@))
                &&& block.said@ == if block.global {
                    "Rule created successfully (global)"@
                } else {
                    "Rule created successfully"@
                }
            },
            Err(e) => safe_name(spec.name@).len() == 0 && e@
                == "rule name must contain at least one alphanumeric character"@,
        },
{
    let safe = sanitize_rule_name(spec.name);
    if safe.as_str().is_empty() {
        return Err("rule name must contain at least one alphanumeric character".to_owned());
    }
    let mut front: Vec<String> = Vec::new();
    assert(views(front@) =~= Seq::empty());
    push_field(&mut front, "globs: ", spec.globs);
    push_field(&mut front, "regex: ", spec.regex);
    push_field(&mut front, "description: ", spec.description);
    let ghost before = views(front@);
    match spec.always_apply {
        Some(true) => {
            front.push("alwaysApply: true".to_owned());
            assert(views(front@) =~= before.push("alwaysApply: true"@));
        },
        Some(false) => {
            front.push("alwaysApply: false".to_owned());
            assert(views(front@) =~= before.push("alwaysApply: false"@));
        },
        None => {},
    }
    let global = match spec.scope {
        Some(scope) => text::same(scope, "global"),
        None => false,
    };
    let joined = text::joined_strings(&front, "\n");
    let mut content = text::glue3("---\n", joined.as_str(), "\n---\n\n");
    content.append(spec.rule);
    let said = if global {
        "Rule created successfully (global)".to_owned()
    } else {
        "Rule created successfully".to_owned()
    };
    Ok(RuleBlock { file_name: text::glue(safe.as_str(), ".md"), content, global, said })
}

// ---------------------------------------------------------------------------------------------
// Reading rules
// ---------------------------------------------------------------------------------------------
/// A file with its name.
#[derive(Debug)]
pub struct NamedFile {
    pub name: String,
    pub content: String,
}

/// A `NamedFile` with its texts as characters.
pub ghost struct FileView {
    pub name: Seq<char>,
    pub content: Seq<char>,
}

impl View for NamedFile {
    type V = FileView;

    open spec fn view(&self) -> FileView {
        FileView { name: self.name@, content: self.content@ }
    }
}

/// The views of files.
pub open spec fn files_view(files: Seq<NamedFile>) -> Seq<FileView> {
    Seq::new(files.len(), |i: int| files[i]@)
}

/// The name of a file without the ending of Markdown.
pub open spec fn stem(name: Seq<char>) -> Option<Seq<char>> {
    if has_suffix(name, ".md"@) {
        Some(name.take(name.len() - 3))
    } else {
        None
    }
}

/// A rule as it is read.
pub open spec fn rule_named(name: Seq<char>, content: Seq<char>) -> RuleView {
    RuleView {
        name,
        rule: match body_of(content) {
            Some(body) => body,
            None => content,
        },
        description: or_empty(field_of(content, "description"@)),
        globs: or_empty(field_of(content, "globs"@)),
        regex: or_empty(field_of(content, "regex"@)),
        always_apply: truth_of(field_of(content, "alwaysApply"@)),
    }
}

/// The position of the rule with a name, from `i` on.
pub open spec fn rule_from(rules: Seq<RuleView>, name: Seq<char>, i: int) -> Option<int>
    decreases rules.len() - i,
{
    if i < 0 || i >= rules.len() {
        None
    } else if rules[i].name == name {
        Some(i)
    } else {
        rule_from(rules, name, i + 1)
    }
}

/// The rules with one more, in place of any with its name.
pub open spec fn with_rule(rules: Seq<RuleView>, rule: RuleView) -> Seq<RuleView> {
    match rule_from(rules, rule.name, 0) {
        Some(i) => rules.update(i, rule),
        None => rules.push(rule),
    }
}

/// The rules with those of the first `n` files; a file that is not Markdown holds none.
pub open spec fn with_files(rules: Seq<RuleView>, files: Seq<FileView>, n: int) -> Seq<RuleView>
    decreases n,
{
    if n <= 0 {
        rules
    } else {
        let before = with_files(rules, files, n - 1);
        match stem(files[n - 1].name) {
            Some(name) => with_rule(before, rule_named(name, files[n - 1].content)),
            None => before,
        }
    }
}

/// All rules, in the order in which they were read: those of the project take the place of those for
/// all projects.
pub open spec fn all_rules(global: Seq<FileView>, project: Seq<FileView>) -> Seq<RuleView> {
    with_files(
        with_files(Seq::empty(), global, global.len() as int),
        project,
        project.len() as int,
    )
}

/// The names of rules.
pub open spec fn rule_names(rules: Seq<RuleView>) -> Seq<Seq<char>> {
    Seq::new(rules.len(), |i: int| rules[i].name)
}

/// The rules in the order of their names.
pub open spec fn sorted_rules(rules: Seq<RuleView>) -> Seq<RuleView> {
    let order = order_of(rule_names(rules), rules.len() as int);
    Seq::new(rules.len(), |i: int| rules[order[i]])
}

/// The first `n` rules without those that are switched off.
pub open spec fn enabled_rules(rules: Seq<RuleView>, disabled: Seq<Seq<char>>, n: int) -> Seq<RuleView>
    decreases n,
{
    if n <= 0 {
        Seq::empty()
    } else {
        let before = enabled_rules(rules, disabled, n - 1);
        if disabled.contains(rules[n - 1].name) {
            before
        } else {
            before.push(rules[n - 1])
        }
    }
}

/// The name of a file without the ending of Markdown.
fn stem_of(name: &str) -> (r: Option<String>)
    ensures
        opt_text(r) == stem(name@),
{
    let chars = text::chars_of(name);
    if text::ends_with(chars.as_slice(), ".md") {
        proof {
            reveal_strlit(".md");
        }
        let rest = text::part(chars.as_slice(), 0, chars.len() - 3);
        assert(rest@ =~= name@.take(name@.len() - 3));
        Some(text::string_of(rest.as_slice()))
    } else {
        None
    }
}

/// A rule as it is read.
fn read_rule(name: String, content: &str) -> (r: RuleContext)
    ensures
        r@ == rule_named(name@, content@),
{
    let rule = match rule_body(content) {
        Some(body) => body,
        None => content.to_owned(),
    };
    RuleContext {
        name,
        rule,
        description: text::unwrap_or_empty(frontmatter_field(content, "description")),
        globs: text::unwrap_or_empty(frontmatter_field(content, "globs")),
        regex: text::unwrap_or_empty(frontmatter_field(content, "regex")),
        always_apply: frontmatter_bool(content, "alwaysApply"),
    }
}

/// Adds a rule, in place of any with its name.
fn put_rule(rules: &mut Vec<RuleContext>, rule: RuleContext)
    ensures
        rules_view(final(rules)@) == with_rule(rules_view(old(rules)@), rule@),
{
    let ghost all = rules_view(rules@);
    let ghost view = rule@;
    let mut i: usize = 0;
    while i < rules.len()
        invariant
            i <= rules@.len(),
            all == rules_view(rules@),
            rules == old(rules),
            rule@ == view,
            rule_from(all, view.name, 0) == rule_from(all, view.name, i as int),
        decreases rules@.len() - i,
    {
        assert(all[i as int] == rules@[i as int]@);
        if text::same(rules[i].name.as_str(), rule.name.as_str()) {
            rules[i] = rule;
            assert(rules_view(rules@) =~= all.update(i as int, view));
            return ;
        }
        i += 1;
    }
    rules.push(rule);
    assert(rules_view(rules@) =~= all.push(view));
}

/// Adds the rules of some files.
fn put_files(rules: &mut Vec<RuleContext>, files: &Vec<NamedFile>)
    ensures
        rules_view(final(rules)@) == with_files(
            rules_view(old(rules)@),
            files_view(files@),
            files@.len() as int,
        ),
{
    let ghost start = rules_view(rules@);
    let ghost all = files_view(files@);
    let mut i: usize = 0;
    while i < files.len()
        invariant
            i <= files@.len(),
            all == files_view(files@),
            rules_view(rules@) == with_files(start, all, i as int),
        decreases files@.len() - i,
    {
        assert(all[i as int] == files@[i as int]@);
        if let Some(name) = stem_of(files[i].name.as_str()) {
            put_rule(rules, read_rule(name, files[i].content.as_str()));
        }
        i += 1;
    }
}

/// A copy of a rule.
fn copy_rule(rule: &RuleContext) -> (r: RuleContext)
    ensures
        r@ == rule@,
{
    RuleContext {
        name: rule.name.clone(),
        rule: rule.rule.clone(),
        description: rule.description.clone(),
        globs: rule.globs.clone(),
        regex: rule.regex.clone(),
        always_apply: rule.always_apply,
    }
}

/// All rules, in the order of their names: those of the project take the place of those for all
/// projects.
pub fn load_rules_all(global: &Vec<NamedFile>, project: &Vec<NamedFile>) -> (r: Vec<RuleContext>)
    ensures
        rules_view(r@) == sorted_rules(all_rules(files_view(global@), files_view(project@))),
{
    let mut rules: Vec<RuleContext> = Vec::new();
    assert(rules_view(rules@) =~= Seq::empty());
    put_files(&mut rules, global);
    put_files(&mut rules, project);
    let ghost all = rules_view(rules@);
    let ghost names_view = rule_names(all);
    let mut names: Vec<String> = Vec::new();
    let mut i: usize = 0;
    assert(views(names@) =~= names_view.take(0));
    while i < rules.len()
        invariant
            i <= rules@.len(),
            all == rules_view(rules@),
            names_view == rule_names(all),
            names@.len() == i,
            views(names@) == names_view.take(i as int),
        decreases rules@.len() - i,
    {
        let ghost before = views(names@);
        let name = rules[i].name.clone();
        names.push(name);
        proof {
            assert(views(names@) =~= before.push(name@));
            assert(names_view.take(i + 1) =~= names_view.take(i as int).push(names_view[i as int]));
        }
        i += 1;
    }
    assert(names_view.take(i as int) =~= names_view);
    let order = order::sort_names(&names);
    let ghost goal = sorted_rules(all);
    let mut out: Vec<RuleContext> = Vec::new();
    let mut k: usize = 0;
    assert(rules_view(out@) =~= goal.take(0));
    while k < order.len()
        invariant
            k <= order@.len() == rules@.len(),
            all == rules_view(rules@),
            ints(order@) == order_of(rule_names(all), all.len() as int),
            goal == sorted_rules(all),
            forall|j: int| 0 <= j < order@.len() ==> #[trigger] order@[j] < rules@.len(),
            rules_view(out@) == goal.take(k as int),
        decreases order@.len() - k,
    {
        let ghost before = rules_view(out@);
        let rule = copy_rule(&rules[order[k]]);
        proof {
            assert(ints(order@)[k as int] == order@[k as int] as int);
            assert(goal[k as int] == all[order@[k as int] as int]);
            assert(all[order@[k as int] as int] == rule@);
        }
        out.push(rule);
        proof {
            assert(rules_view(out@) =~= before.push(rule@));
            assert(goal.take(k + 1) =~= goal.take(k as int).push(goal[k as int]));
        }
        k += 1;
    }
    assert(goal.take(k as int) =~= goal);
    out
}

/// The rules that are not switched off.
pub fn load_rules(rules: &Vec<RuleContext>, disabled: &Vec<String>) -> (r: Vec<RuleContext>)
    ensures
        rules_view(r@) == enabled_rules(rules_view(rules@), views(disabled@), rules@.len() as int),
{
    let ghost all = rules_view(rules@);
    let mut out: Vec<RuleContext> = Vec::new();
    let mut i: usize = 0;
    assert(rules_view(out@) =~= Seq::empty());
    while i < rules.len()
        invariant
            i <= rules@.len(),
            all == rules_view(rules@),
            rules_view(out@) == enabled_rules(all, views(disabled@), i as int),
        decreases rules@.len() - i,
    {
        assert(all[i as int] == rules@[i as int]@);
        if !agent::holds_text(disabled, rules[i].name.as_str()) {
            let ghost before = rules_view(out@);
            let rule = copy_rule(&rules[i]);
            out.push(rule);
            assert(rules_view(out@) =~= before.push(rule@));
        }
        i += 1;
    }
    out
}

/// Whether a file holds the rule with a name, as it is given or as it is made safe.
pub open spec fn holds_rule(file: Seq<char>, name: Seq<char>, safe: Seq<char>) -> bool {
    let stem = match stem(file) {
        Some(stem) => stem,
        None => file,
    };
    stem == name || stem == safe
}

/// The position of the file that holds a rule, from `i` on.
pub open spec fn rule_file_from(
    files: Seq<Seq<char>>,
    name: Seq<char>,
    safe: Seq<char>,
    i: int,
) -> Option<int>
    decreases files.len() - i,
{
    if i < 0 || i >= files.len() {
        None
    } else if holds_rule(files[i], name, safe) {
        Some(i)
    } else {
        rule_file_from(files, name, safe, i + 1)
    }
}

/// The position of the file that holds a rule, among the names of the files of the project and then
/// those for all projects.
pub fn find_rule_file(files: &Vec<String>, name: &str) -> (r: Result<usize, String>)
    ensures
        match rule_file_from(views(files@), name@, safe_name(name@), 0) {
            Some(i) => r == Ok::<usize, String>(i as usize) && i < files@.len(),
            None => r matches Err(e) && e@ == "Rule with name \""@ + name@
                + "\" not found or has no file path"@,
        },
{
    let wanted = sanitize_rule_name(name);
    let ghost all = views(files@);
    let mut i: usize = 0;
    while i < files.len()
        invariant
            i <= files@.len(),
            all == views(files@),
            wanted@ == safe_name(name@),
            rule_file_from(all, name@, wanted@, 0) == rule_file_from(all, name@, wanted@, i as int),
        decreases files@.len() - i,
    {
        assert(all[i as int] == files@[i as int]@);
        let stem = match stem_of(files[i].as_str()) {
            Some(stem) => stem,
            None => files[i].clone(),
        };
        if text::same(stem.as_str(), name) || text::same(stem.as_str(), wanted.as_str()) {
            return Ok(i);
        }
        i += 1;
    }
    Err(text::glue3("Rule with name \"", name, "\" not found or has no file path"))
}

// ---------------------------------------------------------------------------------------------
// Switching off
// ---------------------------------------------------------------------------------------------
/// Texts, if all of the first `n` items are texts.
pub open spec fn all_texts(items: Seq<JsonView>, n: int) -> Option<Seq<Seq<char>>>
    decreases n,
{
    if n <= 0 {
        Some(Seq::empty())
    } else {
        match (all_texts(items, n - 1), items[n - 1].text()) {
            (Some(before), Some(text)) => Some(before.push(text)),
            _ => None,
        }
    }
}

/// The texts of a list of texts; nothing if a value is none.
pub open spec fn texts_of(value: JsonView) -> Seq<Seq<char>> {
    match value.items() {
        Some(items) => match all_texts(items, items.len() as int) {
            Some(texts) => texts,
            None => Seq::empty(),
        },
        None => Seq::empty(),
    }
}

/// The texts in a field, if it is a list of texts and nothing else.
pub open spec fn list_in(value: JsonView, key: Seq<char>) -> Seq<Seq<char>> {
    match value.field(key) {
        Some(list) => texts_of(list),
        None => Seq::empty(),
    }
}

/// What is kept in a text, as JSON.
pub open spec fn state_in(state: Option<Seq<char>>) -> Option<JsonView> {
    match state {
        Some(state) => json_parsed(state),
        None => None,
    }
}

/// What is switched off, of a kind, in the state that is kept.
pub open spec fn disabled_in(state: Option<Seq<char>>, kind: Seq<char>) -> Seq<Seq<char>> {
    match state_in(state) {
        Some(value) => list_in(value, kind + "_disabled"@),
        None => Seq::empty(),
    }
}

/// The texts in a field, if it is a list of texts and nothing else.
pub fn read_list(value: &Json, key: &str) -> (r: Vec<String>)
    ensures
        views(r@) == list_in(value@, key@),
{
    match value.get(key) {
        Some(list) => read_texts(list),
        None => {
            let none: Vec<String> = Vec::new();
            assert(views(none@) =~= Seq::empty());
            none
        },
    }
}

/// The texts of a list of texts; nothing if a value is none.
pub fn read_texts(value: &Json) -> (r: Vec<String>)
    ensures
        views(r@) == texts_of(value@),
{
    let none: Vec<String> = Vec::new();
    assert(views(none@) =~= Seq::empty());
    let items = match value {
        Json::List(items) => items,
        _ => return none,
    };
    let ghost all = items_view(items@);
    assert(value@.items()->0 =~= all);
    let mut out: Vec<String> = Vec::new();
    let mut i: usize = 0;
    assert(views(out@) =~= Seq::empty());
    while i < items.len()
        invariant
            i <= items@.len(),
            all == items_view(items@),
            views(none@) == Seq::<Seq<char>>::empty(),
            texts_of(value@) == match all_texts(all, all.len() as int) {
                Some(texts) => texts,
                None => Seq::empty(),
            },
            all_texts(all, i as int) == Some(views(out@)),
        decreases items@.len() - i,
    {
        assert(all[i as int] == items@[i as int]@);
        match &items[i] {
            Json::Text(item) => {
                let ghost before = views(out@);
                out.push(item.clone());
                assert(views(out@) =~= before.push(item@));
            },
            _ => {
                proof {
                    no_text_stays(all, i + 1, all.len() as int);
                }
                return none;
            },
        }
        i += 1;
    }
    assert(all.len() == items@.len());
    out
}

/// Once an item is no text, the later ones do not matter.
proof fn no_text_stays(items: Seq<JsonView>, i: int, n: int)
    requires
        0 <= i <= n,
        all_texts(items, i) is None,
    ensures
        all_texts(items, n) is None,
    decreases n - i,
{
    if i < n {
        no_text_stays(items, i, n - 1);
    }
}

/// What is switched off, of a kind, in the state that is kept.
pub fn disabled_names(state: Option<&str>, kind: &str) -> (r: Vec<String>)
    ensures
        views(r@) == disabled_in(opt_str(state), kind@),
{
    if let Some(state) = state {
        if let Some(value) = json::parse_json(state) {
            return read_list(&value, text::glue(kind, "_disabled").as_str());
        }
    }
    let none: Vec<String> = Vec::new();
    assert(views(none@) =~= Seq::empty());
    none
}

/// Whether something is in force.
pub open spec fn in_force(disabled: Seq<Seq<char>>, name: Seq<char>) -> bool {
    !disabled.contains(name)
}

/// Whether a rule is in force.
pub fn is_rule_enabled(state: Option<&str>, name: &str) -> (r: bool)
    ensures
        r == in_force(disabled_in(opt_str(state), "rules"@), name@),
{
    !agent::holds_text(&disabled_names(state, "rules"), name)
}

/// Whether a skill is in force.
pub fn is_skill_enabled(state: Option<&str>, name: &str) -> (r: bool)
    ensures
        r == in_force(disabled_in(opt_str(state), "skills"@), name@),
{
    !agent::holds_text(&disabled_names(state, "skills"), name)
}

/// What is switched off, after one name is switched on or off.
pub open spec fn switched(disabled: Seq<Seq<char>>, name: Seq<char>, enabled: bool) -> Seq<Seq<char>> {
    if enabled {
        agent::without_text(disabled, name)
    } else if disabled.contains(name) {
        disabled
    } else {
        disabled.push(name)
    }
}

/// Switches a name on or off.
pub fn switch(disabled: Vec<String>, name: &str, enabled: bool) -> (r: Vec<String>)
    ensures
        views(r@) == switched(views(disabled@), name@, enabled),
{
    let mut disabled = disabled;
    let ghost before = views(disabled@);
    if enabled {
        agent::drop_text(&mut disabled, name);
    } else if !agent::holds_text(&disabled, name) {
        disabled.push(name.to_owned());
        assert(views(disabled@) =~= before.push(name@));
    }
    disabled
}

/// Switching twice puts a name back as it was, and switching a name leaves the others as they are.
pub proof fn switching_is_undone(disabled: Seq<Seq<char>>, name: Seq<char>, other: Seq<char>)
    ensures
        ({
            let once = switched(disabled, name, !in_force(disabled, name));
            let twice = switched(once, name, !in_force(once, name));
            &&& in_force(once, name) == !in_force(disabled, name)
            &&& in_force(twice, name) == in_force(disabled, name)
            &&& other != name ==> in_force(once, other) == in_force(disabled, other)
        }),
{
    let enabled = in_force(disabled, name);
    let once = switched(disabled, name, !enabled);
    crate::app::conversation::cleared_approvals_are_gone(disabled, name, other);
    crate::app::conversation::cleared_approvals_are_gone(once, name, other);
    if enabled {
        assert(once[once.len() - 1] == name);
        if disabled.contains(other) {
            let k = choose|k: int| 0 <= k < disabled.len() && disabled[k] == other;
            assert(once[k] == other);
        }
        if once.contains(other) && other != name {
            let k = choose|k: int| 0 <= k < once.len() && once[k] == other;
            assert(disabled[k] == other);
        }
    } else {
        let twice = switched(once, name, false);
        assert(twice[twice.len() - 1] == name);
    }
}

/// A name that is switched on is in force, and one that is switched off is not.
pub proof fn switched_as_asked(disabled: Seq<Seq<char>>, name: Seq<char>, enabled: bool)
    ensures
        in_force(switched(disabled, name, enabled), name) == enabled,
{
    crate::app::conversation::cleared_approvals_are_gone(disabled, name, name);
    if !enabled && !disabled.contains(name) {
        assert(disabled.push(name)[disabled.len() as int] == name);
    }
}

/// Switching a name leaves the others as they are.
pub proof fn switching_spares_others(
    disabled: Seq<Seq<char>>,
    name: Seq<char>,
    enabled: bool,
    other: Seq<char>,
)
    requires
        other != name,
    ensures
        in_force(switched(disabled, name, enabled), other) == in_force(disabled, other),
{
    crate::app::conversation::cleared_approvals_are_gone(disabled, name, other);
    let more = disabled.push(name);
    if disabled.contains(other) {
        let k = choose|k: int| 0 <= k < disabled.len() && disabled[k] == other;
        assert(more[k] == other);
    }
    if more.contains(other) {
        let k = choose|k: int| 0 <= k < more.len() && more[k] == other;
        assert(disabled[k] == other);
    }
}

/// Leaving out a name that is not there changes nothing.
proof fn nothing_left_out(disabled: Seq<Seq<char>>, name: Seq<char>)
    requires
        !disabled.contains(name),
    ensures
        agent::without_text(disabled, name) == disabled,
    decreases disabled.len(),
{
    if disabled.len() > 0 {
        let head = disabled.drop_last();
        assert(disabled[disabled.len() - 1] != name);
        if head.contains(name) {
            let k = choose|k: int| 0 <= k < head.len() && head[k] == name;
            assert(disabled[k] == name);
        }
        nothing_left_out(head, name);
        assert(head.push(disabled.last()) =~= disabled);
    }
}

/// Asking twice for the same switch is asking once.
pub proof fn switching_twice_is_once(disabled: Seq<Seq<char>>, name: Seq<char>, enabled: bool)
    ensures
        switched(switched(disabled, name, enabled), name, enabled) == switched(
            disabled,
            name,
            enabled,
        ),
{
    switched_as_asked(disabled, name, enabled);
    if enabled {
        nothing_left_out(switched(disabled, name, enabled), name);
    }
}

/// Texts as JSON.
pub open spec fn json_texts(v: Seq<Seq<char>>) -> Seq<JsonView> {
    Seq::new(v.len(), |i: int| JsonView::Text(v[i]))
}

/// Fields with one set, in place of any with its key.
pub open spec fn set_field(fields: Seq<FieldView>, key: Seq<char>, value: JsonView) -> Seq<FieldView> {
    match json::field_from(fields, key, 0) {
        Some(i) => fields.update(i, FieldView { name: key, value }),
        None => fields.push(FieldView { name: key, value }),
    }
}

/// The state with what is switched off; nothing if the state is no object.
pub open spec fn with_disabled(
    state: Option<JsonView>,
    kind: Seq<char>,
    disabled: Seq<Seq<char>>,
) -> Option<JsonView> {
    let list = JsonView::List(json_texts(disabled));
    match state {
        None => Some(JsonView::Object(set_field(Seq::empty(), kind + "_disabled"@, list))),
        Some(JsonView::Null) => Some(
            JsonView::Object(set_field(Seq::empty(), kind + "_disabled"@, list)),
        ),
        Some(JsonView::Object(fields)) => Some(
            JsonView::Object(set_field(fields, kind + "_disabled"@, list)),
        ),
        Some(_) => None,
    }
}

/// Texts as JSON.
pub fn texts_to_json(v: &Vec<String>) -> (r: Json)
    ensures
        r@ == JsonView::List(json_texts(views(v@))),
{
    let ghost goal = json_texts(views(v@));
    let mut items: Vec<Json> = Vec::new();
    let mut i: usize = 0;
    assert(items_view(items@) =~= goal.take(0));
    while i < v.len()
        invariant
            i <= v@.len(),
            goal == json_texts(views(v@)),
            items_view(items@) == goal.take(i as int),
        decreases v@.len() - i,
    {
        let ghost before = items_view(items@);
        let item = Json::Text(v[i].clone());
        items.push(item);
        proof {
            assert(items_view(items@) =~= before.push(item@));
            assert(goal.take(i + 1) =~= goal.take(i as int).push(goal[i as int]));
        }
        i += 1;
    }
    assert(goal.take(i as int) =~= goal);
    json::list(items)
}

/// Sets a field, in place of any with its key.
fn put_field(fields: &mut Vec<(String, Json)>, key: &str, value: Json)
    ensures
        fields_view(final(fields)@) == set_field(fields_view(old(fields)@), key@, value@),
{
    let ghost all = fields_view(fields@);
    let ghost view = value@;
    let mut i: usize = 0;
    while i < fields.len()
        invariant
            i <= fields@.len(),
            all == fields_view(fields@),
            fields == old(fields),
            value@ == view,
            json::field_from(all, key@, 0) == json::field_from(all, key@, i as int),
        decreases fields@.len() - i,
    {
        assert(all[i as int].name == fields@[i as int].0@);
        if text::same(fields[i].0.as_str(), key) {
            fields[i] = (key.to_owned(), value);
            assert(fields_view(fields@) =~= all.update(i as int, FieldView { name: key@, value: view }));
            return ;
        }
        i += 1;
    }
    fields.push((key.to_owned(), value));
    assert(fields_view(fields@) =~= all.push(FieldView { name: key@, value: view }));
}

/// The state with what is switched off; nothing if the state is no object.
pub fn keep_disabled(state: Option<Json>, kind: &str, disabled: Vec<String>) -> (r: Option<Json>)
    ensures
        ({
            let goal = with_disabled(
                match state {
                    Some(value) => Some(value@),
                    None => None,
                },
                kind@,
                views(disabled@),
            );
            match r {
                Some(value) => goal == Some(value@),
                None => goal is None,
            }
        }),
{
    let key = text::glue(kind, "_disabled");
    let mut fields: Vec<(String, Json)> = match state {
        None => Vec::new(),
        Some(Json::Null) => Vec::new(),
        Some(Json::Object(fields)) => {
            assert(Json::Object(fields)@->Object_0 =~= fields_view(fields@));
            fields
        },
        Some(_) => return None,
    };
    proof {
        if fields@.len() == 0 {
            assert(fields_view(fields@) =~= Seq::empty());
        }
    }
    put_field(&mut fields, key.as_str(), texts_to_json(&disabled));
    Some(json::object(fields))
}

/// A name that is not found among fields is none of theirs.
proof fn absent_names(fields: Seq<FieldView>, key: Seq<char>, i: int)
    requires
        0 <= i,
        json::field_from(fields, key, i) is None,
    ensures
        forall|k: int| i <= k < fields.len() ==> (#[trigger] fields[k]).name != key,
    decreases fields.len() - i,
{
    if i < fields.len() {
        absent_names(fields, key, i + 1);
    }
}

/// Where a name is found among fields.
proof fn found_name(fields: Seq<FieldView>, key: Seq<char>, i: int)
    requires
        0 <= i,
    ensures
        json::field_from(fields, key, i) matches Some(k) ==> i <= k < fields.len() && fields[k].name
            == key,
    decreases fields.len() - i,
{
    if i < fields.len() {
        found_name(fields, key, i + 1);
    }
}

/// Setting a field leaves the others where they are.
proof fn setting_spares_others(
    fields: Seq<FieldView>,
    key: Seq<char>,
    value: JsonView,
    other: Seq<char>,
    i: int,
)
    requires
        0 <= i <= fields.len(),
        other != key,
    ensures
        json::field_from(set_field(fields, key, value), other, i) == json::field_from(
            fields,
            other,
            i,
        ),
    decreases fields.len() - i,
{
    found_name(fields, key, 0);
    let now = set_field(fields, key, value);
    if i < fields.len() {
        setting_spares_others(fields, key, value, other, i + 1);
    } else if now.len() > fields.len() {
        assert(json::field_from(now, other, i + 1) is None);
    }
}

/// A field that was set is found, if it is the first with its name from `i` on.
proof fn set_field_is_found(fields: Seq<FieldView>, key: Seq<char>, value: JsonView, i: int)
    requires
        0 <= i <= fields.len(),
        json::field_from(fields, key, 0) == json::field_from(fields, key, i),
    ensures
        json::field_from(set_field(fields, key, value), key, i) == match json::field_from(
            fields,
            key,
            0,
        ) {
            Some(k) => Some(k),
            None => Some(fields.len() as int),
        },
    decreases fields.len() - i,
{
    found_name(fields, key, 0);
    if i < fields.len() && fields[i].name != key {
        set_field_is_found(fields, key, value, i + 1);
    }
}

/// Texts that were made JSON are found again.
pub proof fn texts_are_kept(v: Seq<Seq<char>>, n: int)
    requires
        0 <= n <= v.len(),
    ensures
        all_texts(json_texts(v), n) == Some(v.take(n)),
    decreases n,
{
    if n > 0 {
        texts_are_kept(v, n - 1);
        assert(v.take(n) =~= v.take(n - 1).push(v[n - 1]));
    } else {
        assert(v.take(0) =~= Seq::empty());
    }
}

/// Items with one that is no text are no list of texts.
proof fn other_items_are_no_texts(items: Seq<JsonView>, k: int, n: int)
    requires
        0 <= k < n <= items.len(),
        items[k] !is Text,
    ensures
        all_texts(items, n) is None,
    decreases n,
{
    if k < n - 1 {
        other_items_are_no_texts(items, k, n - 1);
    }
}

/// Objects with the same lists of texts have the same texts in their fields.
proof fn same_lists_are_read(before: JsonView, after: JsonView, key: Seq<char>)
    requires
        before is Object,
        json::same_lists(before, after),
    ensures
        list_in(after, key) == list_in(before, key),
{
    match (before.field(key), after.field(key)) {
        (Some(one), Some(other)) => {
            if !json::is_text_list(one) && !json::is_text_list(other) {
                no_texts(one);
                no_texts(other);
            }
        },
        _ => {},
    }
}

/// A value that is no list of texts holds none.
proof fn no_texts(value: JsonView)
    requires
        !json::is_text_list(value),
    ensures
        value.items() matches Some(items) ==> all_texts(items, items.len() as int) is None,
{
    if let Some(items) = value.items() {
        let k = choose|k: int| 0 <= k < items.len() && (#[trigger] items[k]) !is Text;
        other_items_are_no_texts(items, k, items.len() as int);
    }
}

/// An object in which a list of texts was set can be printed and read, and holds the texts; its other
/// fields are those that it had.
proof fn set_texts_are_in(fields: Seq<FieldView>, key: Seq<char>, v: Seq<Seq<char>>)
    requires
        json::nested(JsonView::Object(fields), 127),
        json::distinct_names(JsonView::Object(fields)),
    ensures
        ({
            let now = JsonView::Object(set_field(fields, key, JsonView::List(json_texts(v))));
            &&& json::nested(now, 127)
            &&& json::distinct_names(now)
            &&& json::steady_numbers(JsonView::Object(fields)) ==> json::steady_numbers(now)
            &&& list_in(now, key) == v
            &&& forall|other: Seq<char>|
                other != key ==> #[trigger] list_in(now, other) == list_in(
                    JsonView::Object(fields),
                    other,
                )
        }),
{
    let list = JsonView::List(json_texts(v));
    let next = set_field(fields, key, list);
    let now = JsonView::Object(next);
    found_name(fields, key, 0);
    if json::field_from(fields, key, 0) is None {
        absent_names(fields, key, 0);
    }
    assert(json::nested(list, 126)) by {
        reveal_with_fuel(json::nested, 2);
    }
    assert(json::steady_numbers(list)) by {
        reveal_with_fuel(json::steady_numbers, 2);
    }
    assert(json::nested(now, 127)) by {
        assert forall|i: int| 0 <= i < next.len() implies json::nested(
            (#[trigger] next[i]).value,
            126,
        ) by {
            if i < fields.len() {
                assert(json::nested(fields[i].value, 126));
            }
        }
    }
    if json::steady_numbers(JsonView::Object(fields)) {
        assert forall|i: int| 0 <= i < next.len() implies json::steady_numbers(
            (#[trigger] next[i]).value,
        ) by {
            if i < fields.len() {
                assert(json::steady_numbers(fields[i].value));
            }
        }
    }
    assert forall|i: int, j: int| 0 <= i < j < next.len() implies (#[trigger] next[i]).name != (
    #[trigger] next[j]).name by {
        assert(next[i].name == fields[i].name);
        if j < fields.len() {
            assert(next[j].name == fields[j].name);
        }
    }
    set_field_is_found(fields, key, list, 0);
    texts_are_kept(v, v.len() as int);
    assert(v.take(v.len() as int) =~= v);
    assert forall|other: Seq<char>| other != key implies #[trigger] list_in(now, other) == list_in(
        JsonView::Object(fields),
        other,
    ) by {
        setting_spares_others(fields, key, list, other, 0);
        found_name(fields, other, 0);
    }
}

/// Whether a text keeps what is switched off, of a kind, and of the other kinds what the state had.
pub open spec fn remembered(
    state: Option<Seq<char>>,
    kind: Seq<char>,
    disabled: Seq<Seq<char>>,
    text: Seq<char>,
) -> bool {
    &&& disabled_in(Some(text), kind) == disabled
    &&& forall|other: Seq<char>|
        other != kind ==> #[trigger] disabled_in(Some(text), other) == disabled_in(state, other)
}

/// The text of the state after a name is switched on or off; nothing if the state is no object.
pub open spec fn switched_text(
    state: Option<Seq<char>>,
    kind: Seq<char>,
    name: Seq<char>,
    enabled: bool,
) -> Option<Seq<char>> {
    match with_disabled(state_in(state), kind, switched(disabled_in(state, kind), name, enabled)) {
        Some(value) => Some(json_pretty(value)),
        None => None,
    }
}

/// Whether all numbers in the state that is kept are short, or are read as they are written.
pub open spec fn steady_state(state: Option<Seq<char>>) -> bool {
    state_in(state) matches Some(value) ==> json::steady_numbers(value)
}

/// What holds of a text after a name was switched on or off: it keeps what is switched off, of every
/// kind; the name is in force if it was switched on, and the other names as before; and switching it in
/// the same way again writes what the text is read as, which is the same text if each number in the
/// state is short or is read as it is written.
pub open spec fn kept(
    state: Option<Seq<char>>,
    kind: Seq<char>,
    name: Seq<char>,
    enabled: bool,
    text: Seq<char>,
) -> bool {
    &&& remembered(state, kind, switched(disabled_in(state, kind), name, enabled), text)
    &&& in_force(disabled_in(Some(text), kind), name) == enabled
    &&& forall|other: Seq<char>|
        other != name ==> #[trigger] in_force(disabled_in(Some(text), kind), other) == in_force(
            disabled_in(state, kind),
            other,
        )
    &&& json_parsed(text) is Some
    &&& switched_text(Some(text), kind, name, enabled) == Some(json_pretty(json_parsed(text)->0))
    &&& steady_state(state) ==> switched_text(Some(text), kind, name, enabled) == Some(text)
}

/// Setting a field to what it holds changes nothing.
proof fn setting_the_same(value: JsonView, kind: Seq<char>, disabled: Seq<Seq<char>>)
    requires
        value is Object,
        value.field(kind + "_disabled"@) == Some(JsonView::List(json_texts(disabled))),
    ensures
        with_disabled(Some(value), kind, disabled) == Some(value),
{
    let key = kind + "_disabled"@;
    let fields = value->Object_0;
    found_name(fields, key, 0);
    let i = json::field_from(fields, key, 0)->0;
    let list = JsonView::List(json_texts(disabled));
    assert(fields[i] == FieldView { name: key, value: list });
    assert(set_field(fields, key, list) =~= fields);
}

/// The text of the state after a name is switched on or off; nothing if the state is no object.
pub fn set_disabled(state: Option<&str>, kind: &str, name: &str, enabled: bool) -> (r: Option<String>)
    ensures
        opt_text(r) == switched_text(opt_str(state), kind@, name@, enabled),
        r matches Some(text) ==> kept(opt_str(state), kind@, name@, enabled, text@),
{
    let disabled = switch(disabled_names(state, kind), name, enabled);
    let ghost off = views(disabled@);
    let value = match state {
        Some(state) => json::parse_json(state),
        None => None,
    };
    let ghost fields: Seq<FieldView> = match state_in(opt_str(state)) {
        Some(JsonView::Object(fields)) => fields,
        _ => Seq::empty(),
    };
    match keep_disabled(value, kind, disabled) {
        Some(value) => {
            let text = json::print_pretty(&value);
            proof {
                let key = kind@ + "_disabled"@;
                let list = JsonView::List(json_texts(off));
                set_texts_are_in(fields, key, off);
                set_field_is_found(fields, key, list, 0);
                found_name(fields, key, 0);
                let back = json_parsed(text@)->0;
                same_lists_are_read(value@, back, key);
                assert forall|other: Seq<char>| other != kind@ implies #[trigger] disabled_in(
                    Some(text@),
                    other,
                ) == disabled_in(opt_str(state), other) by {
                    let there = other + "_disabled"@;
                    if there == key {
                        assert(other =~= there.take(there.len() - "_disabled"@.len()));
                        assert(kind@ =~= key.take(key.len() - "_disabled"@.len()));
                    }
                    same_lists_are_read(value@, back, there);
                    assert(list_in(value@, there) == list_in(JsonView::Object(fields), there));
                }
                assert forall|other: Seq<char>| other != name@ implies #[trigger] in_force(
                    disabled_in(Some(text@), kind@),
                    other,
                ) == in_force(disabled_in(opt_str(state), kind@), other) by {
                    switching_spares_others(
                        disabled_in(opt_str(state), kind@),
                        name@,
                        enabled,
                        other,
                    );
                }
                switched_as_asked(disabled_in(opt_str(state), kind@), name@, enabled);
                switching_twice_is_once(disabled_in(opt_str(state), kind@), name@, enabled);
                assert(value@.field(key) == Some(list));
                assert(json::is_text_list(list));
                assert(back.field(key) == Some(list));
                setting_the_same(back, kind@, off);
            }
            Some(text)
        },
        None => None,
    }
}

/// What was switched off in a file of its own.
pub open spec fn legacy_in(state: Option<Seq<char>>) -> Seq<Seq<char>> {
    match state_in(state) {
        Some(value) => list_in(value, "disabled"@),
        None => Seq::empty(),
    }
}

/// The fields with one for what was switched off, if anything was.
pub open spec fn with_legacy(
    fields: Seq<FieldView>,
    key: Seq<char>,
    disabled: Seq<Seq<char>>,
) -> Seq<FieldView> {
    if disabled.len() == 0 {
        fields
    } else {
        fields.push(FieldView { name: key, value: JsonView::List(json_texts(disabled)) })
    }
}

/// The state that brings together what was switched off in files of its own, if anything was.
pub open spec fn migrated(rules: Seq<Seq<char>>, skills: Seq<Seq<char>>) -> Option<JsonView> {
    let fields = with_legacy(
        with_legacy(Seq::empty(), "rules_disabled"@, rules),
        "skills_disabled"@,
        skills,
    );
    if fields.len() == 0 {
        None
    } else {
        Some(JsonView::Object(fields))
    }
}

/// What was switched off in a file of its own.
fn legacy_names(state: Option<&str>) -> (r: Vec<String>)
    ensures
        views(r@) == legacy_in(opt_str(state)),
{
    if let Some(state) = state {
        if let Some(value) = json::parse_json(state) {
            return read_list(&value, "disabled");
        }
    }
    let none: Vec<String> = Vec::new();
    assert(views(none@) =~= Seq::empty());
    none
}

/// The state that brings together what was switched off, if anything was.
pub fn merge_disabled(rules: Vec<String>, skills: Vec<String>) -> (r: Option<Json>)
    ensures
        match r {
            Some(value) => migrated(views(rules@), views(skills@)) == Some(value@),
            None => migrated(views(rules@), views(skills@)) is None,
        },
{
    let mut fields: Vec<(String, Json)> = Vec::new();
    assert(fields_view(fields@) =~= Seq::empty());
    assert(views(rules@).len() == rules@.len() && views(skills@).len() == skills@.len());
    if rules.len() > 0 {
        let ghost before = fields_view(fields@);
        let list = texts_to_json(&rules);
        fields.push(("rules_disabled".to_owned(), list));
        assert(fields_view(fields@) =~= before.push(
            FieldView { name: "rules_disabled"@, value: list@ },
        ));
    }
    if skills.len() > 0 {
        let ghost before = fields_view(fields@);
        let list = texts_to_json(&skills);
        fields.push(("skills_disabled".to_owned(), list));
        assert(fields_view(fields@) =~= before.push(
            FieldView { name: "skills_disabled"@, value: list@ },
        ));
    }
    assert(fields_view(fields@).len() == fields@.len());
    if fields.len() == 0 {
        None
    } else {
        Some(json::object(fields))
    }
}

/// The text of the state that brings together what was switched off in files of its own, if anything
/// was.
pub fn migrate_state(rules: Option<&str>, skills: Option<&str>) -> (r: Option<String>)
    ensures
        opt_text(r) == match migrated(legacy_in(opt_str(rules)), legacy_in(opt_str(skills))) {
            Some(value) => Some(json_pretty(value)),
            None => None,
        },
        r matches Some(text) ==> {
            &&& disabled_in(Some(text@), "rules"@) == legacy_in(opt_str(rules))
            &&& disabled_in(Some(text@), "skills"@) == legacy_in(opt_str(skills))
        },
{
    match merge_disabled(legacy_names(rules), legacy_names(skills)) {
        Some(value) => {
            let text = json::print_pretty(&value);
            proof {
                migrated_lists(legacy_in(opt_str(rules)), legacy_in(opt_str(skills)));
                let back = json_parsed(text@)->0;
                same_lists_are_read(value@, back, "rules"@ + "_disabled"@);
                same_lists_are_read(value@, back, "skills"@ + "_disabled"@);
            }
            Some(text)
        },
        None => None,
    }
}

/// The state that brings together what was switched off can be printed and read, and holds it.
proof fn migrated_lists(rules: Seq<Seq<char>>, skills: Seq<Seq<char>>)
    ensures
        migrated(rules, skills) matches Some(value) ==> {
            &&& json::nested(value, 127)
            &&& json::distinct_names(value)
            &&& json::steady_numbers(value)
            &&& list_in(value, "rules"@ + "_disabled"@) == rules
            &&& list_in(value, "skills"@ + "_disabled"@) == skills
        },
{
    reveal_strlit("rules");
    reveal_strlit("skills");
    reveal_strlit("_disabled");
    reveal_strlit("rules_disabled");
    reveal_strlit("skills_disabled");
    let here = "rules_disabled"@;
    let there = "skills_disabled"@;
    assert("rules"@ + "_disabled"@ =~= here);
    assert("skills"@ + "_disabled"@ =~= there);
    assert(here[0] != there[0]);
    let none = Seq::<FieldView>::empty();
    let first = with_legacy(none, here, rules);
    if rules.len() > 0 {
        set_texts_are_in(none, here, rules);
        assert(set_field(none, here, JsonView::List(json_texts(rules))) =~= first);
    }
    if skills.len() > 0 {
        set_texts_are_in(first, there, skills);
        assert(json::field_from(first, there, 0) is None) by {
            reveal_with_fuel(json::field_from, 2);
        }
    }
    if rules.len() == 0 {
        assert(rules =~= Seq::empty());
    }
    if skills.len() == 0 {
        assert(skills =~= Seq::empty());
        reveal_with_fuel(json::field_from, 2);
    }
}

// ---------------------------------------------------------------------------------------------
// Skills
// ---------------------------------------------------------------------------------------------
/// Where a skill may stand: a folder, with its main file and the names of the others, or a file. What
/// could not be read is an error.
#[derive(Debug)]
pub enum SkillSource {
    Folder { name: String, skill: Option<Result<String, String>>, files: Vec<String> },
    File { name: String, content: Result<String, String> },
}

/// What was read, or nothing.
pub open spec fn read_or_empty(content: Result<String, String>) -> Seq<char> {
    match content {
        Ok(content) => content@,
        Err(_) => Seq::empty(),
    }
}

/// A skill as it is read; without a name of its own it has that of its file.
pub open spec fn skill_named(name: Seq<char>, content: Seq<char>) -> SkillView {
    SkillView {
        name: match field_of(content, "name"@) {
            Some(own) => own,
            None => name,
        },
        description: or_empty(field_of(content, "description"@)),
    }
}

/// The skill that stands in a place.
pub open spec fn skill_in(source: SkillSource) -> Option<SkillView> {
    match source {
        SkillSource::Folder { name, skill, .. } => match skill {
            Some(content) => Some(skill_named(name@, read_or_empty(content))),
            None => None,
        },
        SkillSource::File { name, content } => match stem(name@) {
            Some(stem) => Some(skill_named(stem, read_or_empty(content))),
            None => None,
        },
    }
}

/// Whether there is a skill with a name.
pub open spec fn has_skill(skills: Seq<SkillView>, name: Seq<char>) -> bool {
    exists|i: int| 0 <= i < skills.len() && (#[trigger] skills[i]).name == name
}

/// The skills of the first `n` places; of several with one name, the first.
pub open spec fn all_skills(sources: Seq<SkillSource>, n: int) -> Seq<SkillView>
    decreases n,
{
    if n <= 0 {
        Seq::empty()
    } else {
        let before = all_skills(sources, n - 1);
        match skill_in(sources[n - 1]) {
            Some(skill) => if has_skill(before, skill.name) {
                before
            } else {
                before.push(skill)
            },
            None => before,
        }
    }
}

/// The names of skills.
pub open spec fn skill_names(skills: Seq<SkillView>) -> Seq<Seq<char>> {
    Seq::new(skills.len(), |i: int| skills[i].name)
}

/// The skills in the order of their names.
pub open spec fn sorted_skills(skills: Seq<SkillView>) -> Seq<SkillView> {
    let order = order_of(skill_names(skills), skills.len() as int);
    Seq::new(skills.len(), |i: int| skills[order[i]])
}

/// The first `n` skills without those that are switched off.
pub open spec fn enabled_skills(
    skills: Seq<SkillView>,
    disabled: Seq<Seq<char>>,
    n: int,
) -> Seq<SkillView>
    decreases n,
{
    if n <= 0 {
        Seq::empty()
    } else {
        let before = enabled_skills(skills, disabled, n - 1);
        if disabled.contains(skills[n - 1].name) {
            before
        } else {
            before.push(skills[n - 1])
        }
    }
}

/// A skill as it is read.
fn read_skill_head(name: String, content: &Result<String, String>) -> (r: SkillContext)
    ensures
        r@ == skill_named(name@, read_or_empty(*content)),
{
    let none = String::new();
    assert(none@ =~= Seq::<char>::empty());
    let content = match content {
        Ok(content) => content.as_str(),
        Err(_) => none.as_str(),
    };
    let own = match frontmatter_field(content, "name") {
        Some(own) => own,
        None => name,
    };
    SkillContext {
        name: own,
        description: text::unwrap_or_empty(frontmatter_field(content, "description")),
    }
}

/// The skill that stands in a place.
fn read_source(source: &SkillSource) -> (r: Option<SkillContext>)
    ensures
        match r {
            Some(skill) => skill_in(*source) == Some(skill@),
            None => skill_in(*source) is None,
        },
{
    match source {
        SkillSource::Folder { name, skill, .. } => match skill {
            Some(content) => Some(read_skill_head(name.clone(), content)),
            None => None,
        },
        SkillSource::File { name, content } => match stem_of(name.as_str()) {
            Some(stem) => Some(read_skill_head(stem, content)),
            None => None,
        },
    }
}

/// Whether there is a skill with a name.
fn knows_skill(skills: &Vec<SkillContext>, name: &str) -> (r: bool)
    ensures
        r == has_skill(skills_view(skills@), name@),
{
    let ghost all = skills_view(skills@);
    let mut i: usize = 0;
    while i < skills.len()
        invariant
            i <= skills@.len(),
            all == skills_view(skills@),
            forall|k: int| 0 <= k < i ==> (#[trigger] all[k]).name != name@,
        decreases skills@.len() - i,
    {
        assert(all[i as int] == skills@[i as int]@);
        if text::same(skills[i].name.as_str(), name) {
            return true;
        }
        i += 1;
    }
    false
}

/// All skills, in the order of their names. The places of the project come first; of several skills
/// with one name, the first counts.
pub fn load_skills_all(sources: &Vec<SkillSource>) -> (r: Vec<SkillContext>)
    ensures
        skills_view(r@) == sorted_skills(all_skills(sources@, sources@.len() as int)),
{
    let mut skills: Vec<SkillContext> = Vec::new();
    let mut i: usize = 0;
    assert(skills_view(skills@) =~= Seq::empty());
    while i < sources.len()
        invariant
            i <= sources@.len(),
            skills_view(skills@) == all_skills(sources@, i as int),
        decreases sources@.len() - i,
    {
        if let Some(skill) = read_source(&sources[i]) {
            if !knows_skill(&skills, skill.name.as_str()) {
                let ghost before = skills_view(skills@);
                let ghost view = skill@;
                skills.push(skill);
                assert(skills_view(skills@) =~= before.push(view));
            }
        }
        i += 1;
    }
    sort_skills(&skills)
}

/// The skills in the order of their names.
fn sort_skills(skills: &Vec<SkillContext>) -> (r: Vec<SkillContext>)
    ensures
        skills_view(r@) == sorted_skills(skills_view(skills@)),
{
    let ghost all = skills_view(skills@);
    let names = names_of_skills(skills);
    assert(views(names@).len() == names@.len());
    let order = order::sort_names(&names);
    let ghost goal = sorted_skills(all);
    let mut out: Vec<SkillContext> = Vec::new();
    let mut k: usize = 0;
    assert(skills_view(out@) =~= goal.take(0));
    while k < order.len()
        invariant
            k <= order@.len() == skills@.len(),
            all == skills_view(skills@),
            ints(order@) == order_of(skill_names(all), all.len() as int),
            goal == sorted_skills(all),
            forall|j: int| 0 <= j < order@.len() ==> #[trigger] order@[j] < skills@.len(),
            skills_view(out@) == goal.take(k as int),
        decreases order@.len() - k,
    {
        let ghost before = skills_view(out@);
        let skill = SkillContext {
            name: skills[order[k]].name.clone(),
            description: skills[order[k]].description.clone(),
        };
        proof {
            assert(ints(order@)[k as int] == order@[k as int] as int);
            assert(goal[k as int] == all[order@[k as int] as int]);
            assert(all[order@[k as int] as int] == skill@);
        }
        out.push(skill);
        proof {
            assert(skills_view(out@) =~= before.push(skill@));
            assert(goal.take(k + 1) =~= goal.take(k as int).push(goal[k as int]));
        }
        k += 1;
    }
    assert(goal.take(k as int) =~= goal);
    out
}

/// The names of skills.
fn names_of_skills(skills: &Vec<SkillContext>) -> (r: Vec<String>)
    ensures
        views(r@) == skill_names(skills_view(skills@)),
{
    let ghost goal = skill_names(skills_view(skills@));
    let mut names: Vec<String> = Vec::new();
    let mut i: usize = 0;
    assert(views(names@) =~= goal.take(0));
    while i < skills.len()
        invariant
            i <= skills@.len(),
            goal == skill_names(skills_view(skills@)),
            views(names@) == goal.take(i as int),
        decreases skills@.len() - i,
    {
        let ghost before = views(names@);
        let name = skills[i].name.clone();
        names.push(name);
        proof {
            assert(views(names@) =~= before.push(name@));
            assert(goal.take(i + 1) =~= goal.take(i as int).push(goal[i as int]));
        }
        i += 1;
    }
    assert(goal.take(i as int) =~= goal);
    names
}

/// The skills that are not switched off.
pub fn load_skills(skills: &Vec<SkillContext>, disabled: &Vec<String>) -> (r: Vec<SkillContext>)
    ensures
        skills_view(r@) == enabled_skills(
            skills_view(skills@),
            views(disabled@),
            skills@.len() as int,
        ),
{
    let ghost all = skills_view(skills@);
    let mut out: Vec<SkillContext> = Vec::new();
    let mut i: usize = 0;
    assert(skills_view(out@) =~= Seq::empty());
    while i < skills.len()
        invariant
            i <= skills@.len(),
            all == skills_view(skills@),
            skills_view(out@) == enabled_skills(all, views(disabled@), i as int),
        decreases skills@.len() - i,
    {
        assert(all[i as int] == skills@[i as int]@);
        if !agent::holds_text(disabled, skills[i].name.as_str()) {
            let ghost before = skills_view(out@);
            let skill = SkillContext {
                name: skills[i].name.clone(),
                description: skills[i].description.clone(),
            };
            out.push(skill);
            assert(skills_view(out@) =~= before.push(skill@));
        }
        i += 1;
    }
    out
}

/// A skill with the names of the files that go with it.
pub open spec fn with_support(content: Seq<char>, files: Seq<Seq<char>>) -> Seq<char> {
    let others = agent::without_text(files, "SKILL.md"@);
    if others.len() == 0 {
        content
    } else {
        content + "\n\n## Supporting Files\nSkill directory:\n"@ + join(others, "\n"@)
            + "\n\nUse the read file tool to access these files as needed."@
    }
}

/// What is said where a skill cannot be read.
pub open spec fn unreadable_skill(wanted: Seq<char>, reason: Seq<char>) -> Seq<char> {
    "cannot read skill "@ + wanted + ": "@ + reason
}

/// What a place says of the skill that is wanted, if it ends the search.
pub open spec fn answer_of(source: SkillSource, wanted: Seq<char>) -> Option<Result<
    Seq<char>,
    Seq<char>,
>> {
    match source {
        SkillSource::Folder { name, skill, files } => match skill {
            None => None,
            Some(Err(reason)) => Some(Err(unreadable_skill(wanted, reason@))),
            Some(Ok(content)) => if or_empty(field_of(content@, "name"@)) == wanted || name@
                == wanted {
                Some(Ok(with_support(content@, views(files@))))
            } else {
                None
            },
        },
        SkillSource::File { name, content } => {
            let own = match stem(name@) {
                Some(stem) => stem,
                None => name@,
            };
            if own == wanted {
                match content {
                    Ok(content) => Some(Ok(content@)),
                    Err(reason) => Some(Err(unreadable_skill(wanted, reason@))),
                }
            } else {
                None
            }
        },
    }
}

/// What the first place from `i` on that ends the search says.
pub open spec fn answer_from(sources: Seq<SkillSource>, wanted: Seq<char>, i: int) -> Option<Result<
    Seq<char>,
    Seq<char>,
>>
    decreases sources.len() - i,
{
    if i < 0 || i >= sources.len() {
        None
    } else if answer_of(sources[i], wanted) is Some {
        answer_of(sources[i], wanted)
    } else {
        answer_from(sources, wanted, i + 1)
    }
}

/// What a place says of the skill that is wanted, if it ends the search.
fn ask_source(source: &SkillSource, wanted: &str) -> (r: Option<Result<String, String>>)
    ensures
        match answer_of(*source, wanted@) {
            None => r is None,
            Some(Ok(said)) => r matches Some(Ok(text)) && text@ == said,
            Some(Err(reason)) => r matches Some(Err(e)) && e@ == reason,
        },
{
    match source {
        SkillSource::Folder { name, skill, files } => match skill {
            None => None,
            Some(Err(reason)) => {
                let mut said = text::glue3("cannot read skill ", wanted, ": ");
                said.append(reason.as_str());
                Some(Err(said))
            },
            Some(Ok(content)) => {
                let own = text::unwrap_or_empty(frontmatter_field(content.as_str(), "name"));
                if text::same(own.as_str(), wanted) || text::same(name.as_str(), wanted) {
                    Some(Ok(support(content, files)))
                } else {
                    None
                }
            },
        },
        SkillSource::File { name, content } => {
            let own = match stem_of(name.as_str()) {
                Some(stem) => stem,
                None => name.clone(),
            };
            if text::same(own.as_str(), wanted) {
                match content {
                    Ok(content) => Some(Ok(content.clone())),
                    Err(reason) => {
                        let mut said = text::glue3("cannot read skill ", wanted, ": ");
                        said.append(reason.as_str());
                        Some(Err(said))
                    },
                }
            } else {
                None
            }
        },
    }
}

/// A skill with the names of the files that go with it.
fn support(content: &String, files: &Vec<String>) -> (r: String)
    ensures
        r@ == with_support(content@, views(files@)),
{
    let mut others: Vec<String> = Vec::new();
    let mut i: usize = 0;
    let ghost all = views(files@);
    assert(views(others@) =~= all.take(0));
    while i < files.len()
        invariant
            i <= files@.len(),
            all == views(files@),
            views(others@) == all.take(i as int),
        decreases files@.len() - i,
    {
        let ghost before = views(others@);
        let name = files[i].clone();
        others.push(name);
        proof {
            assert(views(others@) =~= before.push(name@));
            assert(all.take(i + 1) =~= all.take(i as int).push(all[i as int]));
        }
        i += 1;
    }
    assert(all.take(i as int) =~= all);
    agent::drop_text(&mut others, "SKILL.md");
    assert(views(others@).len() == others@.len());
    if others.len() == 0 {
        return content.clone();
    }
    let mut out = text::glue3(
        content.as_str(),
        "\n\n## Supporting Files\nSkill directory:\n",
        text::joined_strings(&others, "\n").as_str(),
    );
    out.append("\n\nUse the read file tool to access these files as needed.");
    out
}

/// The text of a skill, from the first place that has it. `available` are the names of the skills in
/// force.
pub fn read_skill(sources: &Vec<SkillSource>, wanted: &str, available: &Vec<String>) -> (r: Result<
    String,
    String,
>)
    ensures
        match answer_from(sources@, wanted@, 0) {
            Some(Ok(said)) => r matches Ok(text) && text@ == said,
            Some(Err(reason)) => r matches Err(e) && e@ == reason,
            None => r matches Err(e) && e@ == "Skill \""@ + wanted@
                + "\" not found. Available skills: "@ + join(views(available@), ", "@),
        },
{
    let mut i: usize = 0;
    while i < sources.len()
        invariant
            i <= sources@.len(),
            answer_from(sources@, wanted@, 0) == answer_from(sources@, wanted@, i as int),
        decreases sources@.len() - i,
    {
        if let Some(answer) = ask_source(&sources[i], wanted) {
            return answer;
        }
        i += 1;
    }
    Err(
        text::glue3(
            text::glue("Skill \"", wanted).as_str(),
            "\" not found. Available skills: ",
            text::joined_strings(available, ", ").as_str(),
        ),
    )
}

/// The text of the state after a rule is switched on or off; nothing if the state is no object.
pub fn set_rule_enabled(state: Option<&str>, name: &str, enabled: bool) -> (r: Option<String>)
    ensures
        opt_text(r) == switched_text(opt_str(state), "rules"@, name@, enabled),
        r matches Some(text) ==> kept(opt_str(state), "rules"@, name@, enabled, text@),
{
    set_disabled(state, "rules", name, enabled)
}

/// The text of the state after a skill is switched on or off; nothing if the state is no object.
pub fn set_skill_enabled(state: Option<&str>, name: &str, enabled: bool) -> (r: Option<String>)
    ensures
        opt_text(r) == switched_text(opt_str(state), "skills"@, name@, enabled),
        r matches Some(text) ==> kept(opt_str(state), "skills"@, name@, enabled, text@),
{
    set_disabled(state, "skills", name, enabled)
}

} // verus!
