//! The models that the agent can use.

use crate::adapter::error::{AdapterError, ErrorView};
use crate::adapter::deepseek::client::DeepSeekConfigBuilder;
use crate::adapter::openai::client::OpenAIConfigBuilder;
use crate::text;
use crate::text::{ascending, contains, lowercase, opt_text, views};
use vstd::prelude::*;

verus! {

// ---------------------------------------------------------------------------------------------
// Entries
// ---------------------------------------------------------------------------------------------
/// A model: its name, its provider, the address of the server and the key.
#[derive(Debug, Clone, PartialEq)]
pub struct ModelEntry {
    pub name: String,
    pub kind: String,
    pub base_url: String,
    pub api_key: String,
}

/// A `ModelEntry` with its texts as characters.
pub ghost struct EntryView {
    pub name: Seq<char>,
    pub kind: Seq<char>,
    pub base_url: Seq<char>,
    pub api_key: Seq<char>,
}

impl View for ModelEntry {
    type V = EntryView;

    open spec fn view(&self) -> EntryView {
        EntryView {
            name: self.name@,
            kind: self.kind@,
            base_url: self.base_url@,
            api_key: self.api_key@,
        }
    }
}

impl ModelEntry {
    /// A copy of the entry.
    pub fn duplicate(&self) -> (r: ModelEntry)
        ensures
            r@ == self@,
    {
        ModelEntry {
            name: self.name.clone(),
            kind: self.kind.clone(),
            base_url: self.base_url.clone(),
            api_key: self.api_key.clone(),
        }
    }
}

/// The views of entries.
pub open spec fn entries_view(entries: Seq<ModelEntry>) -> Seq<EntryView> {
    Seq::new(entries.len(), |i: int| entries[i]@)
}

/// The position of the first entry with a name, from `i` on.
pub open spec fn entry_from(entries: Seq<EntryView>, name: Seq<char>, i: int) -> Option<int>
    decreases entries.len() - i,
{
    if i < 0 || i >= entries.len() {
        None
    } else if entries[i].name == name {
        Some(i)
    } else {
        entry_from(entries, name, i + 1)
    }
}

/// The entry with a name.
pub open spec fn entry_of(entries: Seq<EntryView>, name: Seq<char>) -> Option<EntryView> {
    match entry_from(entries, name, 0) {
        Some(i) => Some(entries[i]),
        None => None,
    }
}

/// The entries without those with a name.
pub open spec fn without_entry(entries: Seq<EntryView>, name: Seq<char>) -> Seq<EntryView>
    decreases entries.len(),
{
    if entries.len() == 0 {
        Seq::empty()
    } else if entries.last().name == name {
        without_entry(entries.drop_last(), name)
    } else {
        without_entry(entries.drop_last(), name).push(entries.last())
    }
}

/// Whether no two entries have the same name.
pub open spec fn names_differ(entries: Seq<EntryView>) -> bool {
    forall|i: int, j: int|
        0 <= i < j < entries.len() ==> (#[trigger] entries[i]).name != (#[trigger] entries[j]).name
}

/// The names of entries.
pub open spec fn entry_names(entries: Seq<EntryView>) -> Seq<Seq<char>> {
    Seq::new(entries.len(), |i: int| entries[i].name)
}

/// The first of the names, or an empty one.
pub open spec fn first_name(entries: Seq<EntryView>) -> Seq<char> {
    if entries.len() == 0 {
        Seq::empty()
    } else {
        entries[0].name
    }
}

/// The entry that is found is the first with its name, from `i` on.
pub proof fn entry_from_is_first(entries: Seq<EntryView>, name: Seq<char>, i: int)
    requires
        0 <= i <= entries.len(),
    ensures
        match entry_from(entries, name, i) {
            Some(k) => i <= k < entries.len() && entries[k].name == name,
            None => forall|k: int| i <= k < entries.len() ==> (#[trigger] entries[k]).name != name,
        },
    decreases entries.len() - i,
{
    if i < entries.len() && entries[i].name != name {
        entry_from_is_first(entries, name, i + 1);
    }
}

/// Removing an entry that is not there changes nothing.
pub proof fn removing_nothing(entries: Seq<EntryView>, name: Seq<char>)
    requires
        entry_of(entries, name) is None,
    ensures
        without_entry(entries, name) == entries,
    decreases entries.len(),
{
    entry_from_is_first(entries, name, 0);
    if entries.len() > 0 {
        assert(entries[entries.len() - 1] == entries.last());
        entry_from_is_first(entries.drop_last(), name, 0);
        if entry_of(entries.drop_last(), name) is Some {
            let k = entry_from(entries.drop_last(), name, 0)->0;
            assert(entries[k] == entries.drop_last()[k]);
        }
        removing_nothing(entries.drop_last(), name);
        assert(entries.drop_last().push(entries.last()) =~= entries);
    }
}

/// An entry that was removed is gone, the others stay as they were, and no name comes twice that did
/// not before.
pub proof fn removing_an_entry(entries: Seq<EntryView>, name: Seq<char>)
    ensures
        entry_of(without_entry(entries, name), name) is None,
        forall|i: int|
            0 <= i < without_entry(entries, name).len() ==> entries.contains(
                #[trigger] without_entry(entries, name)[i],
            ) && without_entry(entries, name)[i].name != name,
        forall|i: int|
            0 <= i < entries.len() && (#[trigger] entries[i]).name != name ==> without_entry(
                entries,
                name,
            ).contains(entries[i]),
        names_differ(entries) ==> names_differ(without_entry(entries, name)),
        without_entry(entries, name).len() <= entries.len(),
        without_entry(entries, name).len() == entries.len() <==> entry_of(entries, name) is None,
    decreases entries.len(),
{
    let left = without_entry(entries, name);
    entry_from_is_first(entries, name, 0);
    if entries.len() > 0 {
        let front = entries.drop_last();
        let before = without_entry(front, name);
        removing_an_entry(front, name);
        entry_from_is_first(front, name, 0);
        assert forall|i: int| 0 <= i < left.len() implies entries.contains(#[trigger] left[i])
            && left[i].name != name by {
            if i < before.len() {
                assert(front.contains(before[i]));
                let k = choose|k: int| 0 <= k < front.len() && front[k] == before[i];
                assert(entries[k] == left[i]);
            } else {
                assert(entries[entries.len() - 1] == left[i]);
            }
        }
        assert forall|i: int|
            0 <= i < entries.len() && (#[trigger] entries[i]).name != name implies left.contains(
            entries[i],
        ) by {
            if i < front.len() {
                assert(front[i] == entries[i]);
                assert(before.contains(entries[i]));
                let k = choose|k: int| 0 <= k < before.len() && before[k] == entries[i];
                assert(left[k] == entries[i]);
            } else {
                assert(left[left.len() - 1] == entries[i]);
            }
        }
        if names_differ(entries) {
            assert(names_differ(front)) by {
                assert forall|i: int, j: int| 0 <= i < j < front.len() implies (
                #[trigger] front[i]).name != (#[trigger] front[j]).name by {
                    assert(entries[i].name != entries[j].name);
                }
            }
            assert forall|i: int, j: int| 0 <= i < j < left.len() implies (
            #[trigger] left[i]).name != (#[trigger] left[j]).name by {
                if j < before.len() {
                    assert(left[i] == before[i] && left[j] == before[j]);
                } else {
                    assert(left[i] == before[i]);
                    assert(front.contains(before[i]));
                    let k = choose|k: int| 0 <= k < front.len() && front[k] == before[i];
                    assert(entries[k].name != entries[entries.len() - 1].name);
                }
            }
        }
        if entry_of(front, name) is Some {
            let k = entry_from(front, name, 0)->0;
            assert(entries[k].name == name);
        }
        if entries.last().name == name {
            assert(entries[entries.len() - 1].name == name);
        }
        if entry_of(entries, name) is Some {
            let k = entry_from(entries, name, 0)->0;
            if k < front.len() {
                assert(front[k].name == name);
            }
        }
    }
    entry_from_is_first(left, name, 0);
}

// ---------------------------------------------------------------------------------------------
// The store
// ---------------------------------------------------------------------------------------------
/// The models that are known, and the one in use.
#[derive(Debug, Clone)]
pub struct ModelsStore {
    pub entries: Vec<ModelEntry>,
    pub current: String,
}

impl ModelsStore {
    /// No model.
    pub fn new() -> (r: ModelsStore)
        ensures
            entries_view(r.entries@) == Seq::<EntryView>::empty(),
            r.current@ == Seq::<char>::empty(),
    {
        let r = ModelsStore { entries: Vec::new(), current: String::new() };
        proof {
            assert(entries_view(r.entries@) =~= Seq::empty());
            assert(r.current@ =~= Seq::<char>::empty());
        }
        r
    }

    /// Removes the entries with a name.
    fn drop_entry(&mut self, name: &str)
        ensures
            entries_view(final(self).entries@) == without_entry(
                entries_view(old(self).entries@),
                name@,
            ),
            final(self).current == old(self).current,
    {
        let ghost all = entries_view(self.entries@);
        let total: usize = self.entries.len();
        let mut i: usize = 0;
        let mut n: usize = 0;
        assert(entries_view(self.entries@) =~= without_entry(all.take(0), name@) + all.skip(0));
        while n < total
            invariant
                i <= n <= total,
                total == all.len(),
                i == without_entry(all.take(n as int), name@).len(),
                entries_view(self.entries@) == without_entry(all.take(n as int), name@) + all.skip(
                    n as int,
                ),
                self.current == old(self).current,
            decreases total - n,
        {
            let ghost done = without_entry(all.take(n as int), name@);
            let ghost whole = entries_view(self.entries@);
            proof {
                assert(all.take(n + 1).drop_last() =~= all.take(n as int));
                assert(all.take(n + 1).last() == all[n as int]);
                assert(whole.len() == self.entries@.len());
                assert(whole[i as int] == self.entries@[i as int]@);
                assert(whole[i as int] == all[n as int]);
            }
            if text::same(self.entries[i].name.as_str(), name) {
                let _ = self.entries.remove(i);
                proof {
                    assert(entries_view(self.entries@) =~= whole.remove(i as int));
                    assert(entries_view(self.entries@) =~= done + all.skip(n + 1));
                }
            } else {
                assert(done + all.skip(n as int) =~= done.push(all[n as int]) + all.skip(n + 1));
                i += 1;
            }
            n += 1;
        }
        assert(all.take(n as int) =~= all);
        assert(entries_view(self.entries@) =~= without_entry(all, name@));
    }

    /// Puts an entry at the end, in place of any with its name.
    pub fn upsert(&mut self, entry: ModelEntry)
        ensures
            entries_view(final(self).entries@) == without_entry(
                entries_view(old(self).entries@),
                entry@.name,
            ).push(entry@),
            final(self).current == old(self).current,
    {
        self.drop_entry(entry.name.as_str());
        let ghost before = entries_view(self.entries@);
        self.entries.push(entry);
        assert(entries_view(self.entries@) =~= before.push(entry@));
    }

    /// The entry with a name.
    pub fn get(&self, name: &str) -> (r: Option<&ModelEntry>)
        ensures
            match r {
                Some(entry) => entry_of(entries_view(self.entries@), name@) == Some(entry@),
                None => entry_of(entries_view(self.entries@), name@) is None,
            },
    {
        let ghost all = entries_view(self.entries@);
        let mut i: usize = 0;
        while i < self.entries.len()
            invariant
                i <= self.entries@.len(),
                all == entries_view(self.entries@),
                entry_from(all, name@, 0) == entry_from(all, name@, i as int),
            decreases self.entries@.len() - i,
        {
            assert(all[i as int] == self.entries@[i as int]@);
            if text::same(self.entries[i].name.as_str(), name) {
                return Some(&self.entries[i]);
            }
            i += 1;
        }
        None
    }

    /// Removes the entry with a name, and says whether there was one. If it was in use, the first of
    /// the others is in use from then on.
    pub fn remove(&mut self, name: &str) -> (r: bool)
        ensures
            r == (entry_of(entries_view(old(self).entries@), name@) is Some),
            entries_view(final(self).entries@) == without_entry(
                entries_view(old(self).entries@),
                name@,
            ),
            final(self).current@ == if old(self).current@ == name@ {
                first_name(entries_view(final(self).entries@))
            } else {
                old(self).current@
            },
    {
        let before: usize = self.entries.len();
        let ghost all = entries_view(self.entries@);
        assert(all.len() == before);
        self.drop_entry(name);
        proof {
            removing_an_entry(all, name@);
            assert(entries_view(self.entries@).len() == self.entries@.len());
        }
        if text::same(self.current.as_str(), name) {
            self.current = if self.entries.len() > 0 {
                assert(entries_view(self.entries@)[0] == self.entries@[0]@);
                self.entries[0].name.clone()
            } else {
                let none = String::new();
                assert(none@ =~= Seq::<char>::empty());
                none
            };
        }
        self.entries.len() != before
    }

    /// The names of the models, in order, none of them twice.
    pub fn names(&self) -> (r: Vec<String>)
        ensures
            ascending(views(r@)),
            forall|x: Seq<char>| #[trigger]
                views(r@).contains(x) <==> entry_names(entries_view(self.entries@)).contains(x),
    {
        let ghost all = entry_names(entries_view(self.entries@));
        let mut out: Vec<String> = Vec::new();
        let mut i: usize = 0;
        while i < self.entries.len()
            invariant
                i <= self.entries@.len(),
                all == entry_names(entries_view(self.entries@)),
                ascending(views(out@)),
                forall|x: Seq<char>| #[trigger]
                    views(out@).contains(x) <==> all.take(i as int).contains(x),
            decreases self.entries@.len() - i,
        {
            let ghost before = views(out@);
            let name = self.entries[i].name.clone();
            let ghost s = name@;
            text::insert_text(&mut out, name);
            proof {
                assert(all.take(i + 1) =~= all.take(i as int).push(s));
                assert forall|x: Seq<char>| #[trigger] views(out@).contains(x) <==> all.take(
                    i + 1,
                ).contains(x) by {
                    let old_part = all.take(i as int);
                    let new_part = all.take(i + 1);
                    if old_part.contains(x) {
                        let k = choose|k: int| 0 <= k < old_part.len() && old_part[k] == x;
                        assert(new_part[k] == x);
                    }
                    if x == s {
                        assert(new_part[i as int] == x);
                    }
                    if new_part.contains(x) && x != s {
                        let k = choose|k: int| 0 <= k < new_part.len() && new_part[k] == x;
                        assert(old_part[k] == x);
                    }
                    assert(before.contains(x) <==> old_part.contains(x));
                }
            }
            i += 1;
        }
        assert(all.take(i as int) =~= all);
        out
    }
}

impl Default for ModelsStore {
    fn default() -> (r: Self)
        ensures
            entries_view(r.entries@) == Seq::<EntryView>::empty(),
            r.current@ == Seq::<char>::empty(),
    {
        Self::new()
    }
}

/// Where an entry is found once another stands behind the entries.
proof fn entry_after_push(entries: Seq<EntryView>, entry: EntryView, name: Seq<char>, i: int)
    requires
        0 <= i <= entries.len(),
    ensures
        entry_from(entries.push(entry), name, i) == match entry_from(entries, name, i) {
            Some(k) => Some(k),
            None => if entry.name == name {
                Some(entries.len() as int)
            } else {
                None
            },
        },
    decreases entries.len() - i,
{
    let now = entries.push(entry);
    if i < entries.len() {
        assert(now[i] == entries[i]);
        entry_after_push(entries, entry, name, i + 1);
    } else {
        assert(entry_from(now, name, i + 1) is None);
    }
}

/// Removing the entries with one name leaves those with another to be found as before.
proof fn removing_spares_others(entries: Seq<EntryView>, name: Seq<char>, other: Seq<char>)
    requires
        other != name,
    ensures
        entry_of(without_entry(entries, name), other) == entry_of(entries, other),
    decreases entries.len(),
{
    if entries.len() > 0 {
        let front = entries.drop_last();
        let left = without_entry(front, name);
        removing_spares_others(front, name, other);
        assert(front.push(entries.last()) =~= entries);
        entry_after_push(front, entries.last(), other, 0);
        entry_after_push(left, entries.last(), other, 0);
        entry_from_is_first(front, other, 0);
        entry_from_is_first(left, other, 0);
    }
}

/// A model that was put in is found again, others are found as before, and names that were different
/// stay so.
pub proof fn get_after_upsert(entries: Seq<EntryView>, entry: EntryView, other: Seq<char>)
    ensures
        entry_of(without_entry(entries, entry.name).push(entry), entry.name) == Some(entry),
        other != entry.name ==> entry_of(without_entry(entries, entry.name).push(entry), other)
            == entry_of(entries, other),
        names_differ(entries) ==> names_differ(without_entry(entries, entry.name).push(entry)),
{
    removing_an_entry(entries, entry.name);
    let left = without_entry(entries, entry.name);
    let now = left.push(entry);
    entry_after_push(left, entry, entry.name, 0);
    entry_after_push(left, entry, other, 0);
    entry_from_is_first(left, other, 0);
    if other != entry.name {
        removing_spares_others(entries, entry.name, other);
    }
    if names_differ(entries) {
        assert forall|i: int, j: int| 0 <= i < j < now.len() implies (#[trigger] now[i]).name != (
        #[trigger] now[j]).name by {
            assert(now[i] == left[i]);
            if j < left.len() {
                assert(now[j] == left[j]);
            }
        }
    }
}

// ---------------------------------------------------------------------------------------------
// Merging a project's models into the user's
// ---------------------------------------------------------------------------------------------
/// The user's entry with what only the project's entry has: a key and an address.
pub open spec fn completed(entry: EntryView, more: EntryView) -> EntryView {
    EntryView {
        api_key: if entry.api_key.len() == 0 {
            more.api_key
        } else {
            entry.api_key
        },
        base_url: if entry.base_url.len() == 0 {
            more.base_url
        } else {
            entry.base_url
        },
        ..entry
    }
}

/// The user's entries with one of the project's.
pub open spec fn merged_one(entries: Seq<EntryView>, more: EntryView) -> Seq<EntryView> {
    match entry_from(entries, more.name, 0) {
        Some(i) => entries.update(i, completed(entries[i], more)),
        None => entries.push(more),
    }
}

/// The user's entries with the first `n` of the project's.
pub open spec fn merged(entries: Seq<EntryView>, project: Seq<EntryView>, n: int) -> Seq<EntryView>
    decreases n,
{
    if n <= 0 {
        entries
    } else {
        merged_one(merged(entries, project, n - 1), project[n - 1])
    }
}

/// Merges a project's models into the user's. What the user has set stays.
pub fn merge_stores(global: &mut ModelsStore, project: &ModelsStore)
    ensures
        entries_view(final(global).entries@) == merged(
            entries_view(old(global).entries@),
            entries_view(project.entries@),
            project.entries@.len() as int,
        ),
        final(global).current@ == if old(global).current@.len() == 0 {
            project.current@
        } else {
            old(global).current@
        },
{
    let ghost mine = entries_view(global.entries@);
    let ghost theirs = entries_view(project.entries@);
    let mut n: usize = 0;
    while n < project.entries.len()
        invariant
            n <= project.entries@.len(),
            theirs == entries_view(project.entries@),
            global.current == old(global).current,
            entries_view(global.entries@) == merged(mine, theirs, n as int),
        decreases project.entries@.len() - n,
    {
        let ghost all = entries_view(global.entries@);
        let more = &project.entries[n];
        assert(theirs[n as int] == more@);
        let mut i: usize = 0;
        while i < global.entries.len() && !text::same(
            global.entries[i].name.as_str(),
            more.name.as_str(),
        )
            invariant
                i <= global.entries@.len(),
                all == entries_view(global.entries@),
                entry_from(all, more@.name, 0) == entry_from(all, more@.name, i as int),
            decreases global.entries@.len() - i,
        {
            assert(all[i as int] == global.entries@[i as int]@);
            i += 1;
        }
        if i < global.entries.len() {
            assert(all[i as int] == global.entries@[i as int]@);
            if global.entries[i].api_key.as_str().is_empty() {
                global.entries[i].api_key = more.api_key.clone();
            }
            if global.entries[i].base_url.as_str().is_empty() {
                global.entries[i].base_url = more.base_url.clone();
            }
            assert(entries_view(global.entries@) =~= all.update(
                i as int,
                completed(all[i as int], more@),
            ));
        } else {
            let copy = more.duplicate();
            global.entries.push(copy);
            assert(entries_view(global.entries@) =~= all.push(more@));
        }
        n += 1;
    }
    if global.current.as_str().is_empty() {
        global.current = project.current.clone();
    }
}

/// Merging changes no key and no address that the user has set, and loses no entry.
pub proof fn merging_keeps_settings(
    entries: Seq<EntryView>,
    project: Seq<EntryView>,
    n: int,
    i: int,
)
    requires
        0 <= n <= project.len(),
        0 <= i < entries.len(),
    ensures
        merged(entries, project, n).len() >= entries.len(),
        merged(entries, project, n)[i].name == entries[i].name,
        merged(entries, project, n)[i].kind == entries[i].kind,
        entries[i].api_key.len() > 0 ==> merged(entries, project, n)[i].api_key
            == entries[i].api_key,
        entries[i].base_url.len() > 0 ==> merged(entries, project, n)[i].base_url
            == entries[i].base_url,
    decreases n,
{
    if n > 0 {
        merging_keeps_settings(entries, project, n - 1, i);
        entry_from_is_first(merged(entries, project, n - 1), project[n - 1].name, 0);
    }
}

// ---------------------------------------------------------------------------------------------
// Clients
// ---------------------------------------------------------------------------------------------
/// What a client is built from.
pub enum ClientBuilder {
    OpenAi(OpenAIConfigBuilder),
    DeepSeek(DeepSeekConfigBuilder),
}

/// The text, if it is not empty.
pub open spec fn given(s: Seq<char>) -> Option<Seq<char>> {
    if s.len() == 0 {
        None
    } else {
        Some(s)
    }
}

/// Whether a client is built from an entry: the provider that it names, and what it sets.
pub open spec fn builder_for(entry: EntryView, builder: ClientBuilder) -> bool {
    match builder {
        ClientBuilder::DeepSeek(b) => {
            &&& entry.kind == "deepseek"@
            &&& opt_text(b.default_model) == Some(entry.name)
            &&& opt_text(b.base_url) == given(entry.base_url)
            &&& opt_text(b.api_key) == given(entry.api_key)
            &&& b.thinking is None && b.retry is None && b.timeout is None
        },
        ClientBuilder::OpenAi(b) => {
            &&& entry.kind != "deepseek"@
            &&& opt_text(b.default_model) == Some(entry.name)
            &&& opt_text(b.base_url) == given(entry.base_url)
            &&& opt_text(b.api_key) == given(entry.api_key)
            &&& b.retry is None && b.timeout is None
        },
    }
}

/// What the client for an entry is built from.
pub fn build_client(entry: &ModelEntry) -> (r: ClientBuilder)
    ensures
        builder_for(entry@, r),
{
    if text::same(entry.kind.as_str(), "deepseek") {
        let mut builder = DeepSeekConfigBuilder::new().default_model(entry.name.clone());
        if !entry.base_url.as_str().is_empty() {
            builder = builder.base_url(entry.base_url.clone());
        }
        if !entry.api_key.as_str().is_empty() {
            builder = builder.api_key(entry.api_key.clone());
        }
        ClientBuilder::DeepSeek(builder)
    } else {
        let mut builder = OpenAIConfigBuilder::new().default_model(entry.name.clone());
        if !entry.base_url.as_str().is_empty() {
            builder = builder.base_url(entry.base_url.clone());
        }
        if !entry.api_key.as_str().is_empty() {
            builder = builder.api_key(entry.api_key.clone());
        }
        ClientBuilder::OpenAi(builder)
    }
}

/// What a client is built from that has all but its model from the environment.
pub fn build_from_env(kind: &str, model: Option<String>) -> (r: ClientBuilder)
    ensures
        match r {
            ClientBuilder::DeepSeek(b) => kind@ == "deepseek"@ && b == (DeepSeekConfigBuilder {
                api_key: None,
                base_url: None,
                default_model: model,
                thinking: None,
                retry: None,
                timeout: None,
            }),
            ClientBuilder::OpenAi(b) => kind@ != "deepseek"@ && b == (OpenAIConfigBuilder {
                api_key: None,
                base_url: None,
                default_model: model,
                retry: None,
                timeout: None,
            }),
        },
{
    if text::same(kind, "deepseek") {
        let mut builder = DeepSeekConfigBuilder::new();
        if let Some(model) = model {
            builder = builder.default_model(model);
        }
        ClientBuilder::DeepSeek(builder)
    } else {
        let mut builder = OpenAIConfigBuilder::new();
        if let Some(model) = model {
            builder = builder.default_model(model);
        }
        ClientBuilder::OpenAi(builder)
    }
}

/// Whether an entry is in use, at the end of the others.
pub open spec fn in_use(before: ModelsStore, after: ModelsStore, entry: EntryView) -> bool {
    &&& entries_view(after.entries@) == without_entry(
        entries_view(before.entries@),
        entry.name,
    ).push(entry)
    &&& after.current@ == entry.name
}

/// The answer to every request while there is no model.
pub fn no_model_error() -> (r: AdapterError)
    ensures
        r@ == (ErrorView::Config {
            adapter: "no-model"@,
            message: "no model configured: run /models in the TUI to add one (provider, model, API key)"@,
        }),
{
    AdapterError::config(
        "no-model",
        "no model configured: run /models in the TUI to add one (provider, model, API key)",
    )
}

/// Puts an entry to use, unless its client could not be built: `failure` says why.
pub fn switch_adapter(store: &mut ModelsStore, entry: &ModelEntry, failure: Option<&str>) -> (r:
    Result<(), String>)
    ensures
        match failure {
            Some(reason) => *final(store) == *old(store) && (r matches Err(e) && e@
                == "model build failed: "@ + reason@),
            None => in_use(*old(store), *final(store), entry@) && r is Ok,
        },
{
    match failure {
        Some(reason) => Err(text::glue("model build failed: ", reason)),
        None => {
            store.upsert(entry.duplicate());
            store.current = entry.name.clone();
            Ok(())
        },
    }
}

/// The model of a provider when none is named.
pub open spec fn default_name(kind: Seq<char>) -> Seq<char> {
    if kind == "deepseek"@ {
        "deepseek-v4-flash"@
    } else {
        "gpt-4o"@
    }
}

/// The model of a provider when none is named.
pub fn default_model_name(kind: &str) -> (r: String)
    ensures
        r@ == default_name(kind@),
{
    if text::same(kind, "deepseek") {
        "deepseek-v4-flash".to_owned()
    } else {
        "gpt-4o".to_owned()
    }
}

/// The tokens that a model, by its name in lower case, takes in.
pub open spec fn window_of(lower: Seq<char>) -> usize {
    if contains(lower, "deepseek"@) {
        1_000_000
    } else if contains(lower, "gpt-5"@) {
        400_000
    } else if contains(lower, "o1"@) || contains(lower, "o3"@) || contains(lower, "o4"@) {
        200_000
    } else {
        128_000
    }
}

/// The tokens that a model, by its name in lower case, takes in.
pub fn window_for(lower: &str) -> (r: usize)
    ensures
        r == window_of(lower@),
{
    let chars = text::chars_of(lower);
    let lower = chars.as_slice();
    if text::has(lower, "deepseek") {
        1_000_000
    } else if text::has(lower, "gpt-5") {
        400_000
    } else if text::has(lower, "o1") || text::has(lower, "o3") || text::has(lower, "o4") {
        200_000
    } else {
        128_000
    }
}

/// The tokens that a model takes in.
pub fn context_window(model: &str) -> (r: usize)
    ensures
        r == window_of(lowercase(model@)),
{
    window_for(text::to_lowercase(model).as_str())
}

} // verus!
