//! Skills: the `SKILL.md` frontmatter parser and the registry of loaded skills.
use std::sync::Arc;
use vstd::prelude::*;

use crate::text::{
    chars_eq, chars_of, copy_chars, lemma_views_push, has_prefix, join_chars, lines_of, opt_view, second_piece, second_piece_of,
    slice_chars, spec_join, spec_lines, string_views, spec_trim, starts_with, string_from_chars, trim_chars, views,
};

verus! {

/// A skill described by a `SKILL.md` file.
#[derive(Debug, Clone)]
pub struct Skill {
    pub name: String,
    pub description: String,
    pub commands: Vec<SkillCommand>,
    pub scope: SkillScope,
}

/// A command offered by a skill.
#[derive(Debug, Clone)]
pub struct SkillCommand {
    pub name: String,
    pub description: Option<String>,
    pub pattern: Option<String>,
}

/// Where a skill applies.
#[derive(Debug, Clone, Copy, PartialEq, Eq, Structural)]
pub enum SkillScope {
    Global,
    Project,
    User,
}

/// Reads skills out of their markdown description.
pub struct SkillLoader;

// ---------------------------------------------------------------------------
// Specification of the frontmatter format
// ---------------------------------------------------------------------------

/// A line that opens or closes a `---` fenced frontmatter block.
pub open spec fn is_fence(l: Seq<char>) -> bool {
    starts_with(l, "---"@)
}

/// A line of an unfenced header: `name:`, `description:` or `scope:`.
pub open spec fn is_header_line(l: Seq<char>) -> bool {
    l.len() != 0 && (starts_with(l, "name:"@) || starts_with(l, "description:"@) || starts_with(
        l,
        "scope:"@,
    ))
}

/// First index at or after `i` whose line is a fence.
pub open spec fn fence_end(ls: Seq<Seq<char>>, i: int) -> int
    decreases ls.len() - i,
{
    if 0 <= i < ls.len() && !is_fence(ls[i]) {
        fence_end(ls, i + 1)
    } else {
        i
    }
}

/// First index at or after `i` whose line is not a header line.
pub open spec fn header_end(ls: Seq<Seq<char>>, i: int) -> int
    decreases ls.len() - i,
{
    if 0 <= i < ls.len() && is_header_line(ls[i]) {
        header_end(ls, i + 1)
    } else {
        i
    }
}

/// The frontmatter lines of an already trimmed skill file: the lines after an
/// opening `---` up to the next fence, or else the leading header lines.
pub open spec fn frontmatter_lines(trimmed: Seq<char>) -> Seq<Seq<char>> {
    let ls = spec_lines(trimmed);
    if is_fence(trimmed) {
        if ls.len() == 0 {
            ls
        } else {
            ls.subrange(1, fence_end(ls, 1))
        }
    } else {
        ls.subrange(0, header_end(ls, 0))
    }
}

/// The frontmatter of a skill file, its lines joined by `'\n'`.
pub open spec fn spec_frontmatter(content: Seq<char>) -> Seq<char> {
    spec_join(frontmatter_lines(spec_trim(content)), "\n"@)
}

/// First index at or after `i` of a line that starts with `key`.
pub open spec fn key_line(ls: Seq<Seq<char>>, key: Seq<char>, i: int) -> int
    decreases ls.len() - i,
{
    if 0 <= i < ls.len() && !starts_with(ls[i], key) {
        key_line(ls, key, i + 1)
    } else {
        i
    }
}

/// The value of `field`: on the first line that starts with `field:`, the
/// trimmed text between the first and the second `':'`.
pub open spec fn spec_extract_field(content: Seq<char>, field: Seq<char>) -> Option<Seq<char>> {
    let ls = spec_lines(content);
    let k = key_line(ls, field.push(':'), 0);
    if 0 <= k < ls.len() {
        match second_piece(ls[k], ':') {
            Some(v) => Some(spec_trim(v)),
            None => None,
        }
    } else {
        None
    }
}

/// A field's value, or `default` when the field is absent.
pub open spec fn field_or(content: Seq<char>, field: Seq<char>, default: Seq<char>) -> Seq<char> {
    match spec_extract_field(content, field) {
        Some(v) => v,
        None => default,
    }
}

/// The scope that a `scope:` value names; anything unknown means `Project`.
pub open spec fn scope_named(s: Seq<char>) -> SkillScope {
    if s == "Global"@ {
        SkillScope::Global
    } else if s == "User"@ {
        SkillScope::User
    } else {
        SkillScope::Project
    }
}

/// Name of the skill described by `content`.
pub open spec fn parsed_name(content: Seq<char>) -> Seq<char> {
    field_or(spec_frontmatter(content), "name"@, "Unknown Skill"@)
}

/// Description of the skill described by `content`.
pub open spec fn parsed_description(content: Seq<char>) -> Seq<char> {
    field_or(spec_frontmatter(content), "description"@, "No description"@)
}

/// Scope of the skill described by `content`.
pub open spec fn parsed_scope(content: Seq<char>) -> SkillScope {
    scope_named(field_or(spec_frontmatter(content), "scope"@, "Project"@))
}

proof fn lemma_fence_end_bounds(ls: Seq<Seq<char>>, i: int)
    requires
        0 <= i <= ls.len(),
    ensures
        i <= fence_end(ls, i) <= ls.len(),
    decreases ls.len() - i,
{
    if i < ls.len() && !is_fence(ls[i]) {
        lemma_fence_end_bounds(ls, i + 1);
    }
}

proof fn lemma_header_end_bounds(ls: Seq<Seq<char>>, i: int)
    requires
        0 <= i <= ls.len(),
    ensures
        i <= header_end(ls, i) <= ls.len(),
    decreases ls.len() - i,
{
    if i < ls.len() && is_header_line(ls[i]) {
        lemma_header_end_bounds(ls, i + 1);
    }
}

proof fn lemma_key_line_bounds(ls: Seq<Seq<char>>, key: Seq<char>, i: int)
    requires
        0 <= i <= ls.len(),
    ensures
        i <= key_line(ls, key, i) <= ls.len(),
    decreases ls.len() - i,
{
    if i < ls.len() && !starts_with(ls[i], key) {
        lemma_key_line_bounds(ls, key, i + 1);
    }
}

impl SkillLoader {
    pub fn new() -> (r: Self) {
        SkillLoader
    }

    /// Reads the name, description and scope of a skill from its text. A file
    /// that opens with `---` has its frontmatter up to the next `---` line;
    /// otherwise the frontmatter is the run of leading `name:`,
    /// `description:` and `scope:` lines. Missing fields fall back to
    /// `"Unknown Skill"`, `"No description"` and `Project`. Parsing never fails.
    pub fn parse_skill(&self, content: &str) -> (r: Result<Skill, String>)
        ensures
            r is Ok,
            r matches Ok(skill) ==> {
                &&& skill.name@ == parsed_name(content@)
                &&& skill.description@ == parsed_description(content@)
                &&& skill.scope == parsed_scope(content@)
                &&& skill.commands@.len() == 0
            },
    {
        let chars = chars_of(content);
        let trimmed = trim_chars(&chars);
        let ls = lines_of(&trimmed);
        let fence = chars_of("---");
        let mut picked: Vec<Vec<char>> = Vec::new();
        if has_prefix(&trimmed, &fence) {
            if ls.len() > 0 {
                let mut i: usize = 1;
                while i < ls.len() && !has_prefix(&ls[i], &fence)
                    invariant
                        1 <= i <= ls@.len(),
                        fence@ == "---"@,
                        fence_end(views(ls@), i as int) == fence_end(views(ls@), 1),
                        views(picked@) == views(ls@).subrange(1, i as int),
                    decreases ls@.len() - i,
                {
                    let line = copy_chars(&ls[i]);
                    proof {
                        lemma_views_push(picked@, line);
                    }
                    picked.push(line);
                    assert(views(picked@) =~= views(ls@).subrange(1, i + 1));
                    i = i + 1;
                }
                proof {
                    lemma_fence_end_bounds(views(ls@), 1);
                }
            } else {
                assert(views(picked@) =~= views(ls@));
            }
        } else {
            let name_key = chars_of("name:");
            let desc_key = chars_of("description:");
            let scope_key = chars_of("scope:");
            let mut i: usize = 0;
            while i < ls.len() && ls[i].len() != 0 && (has_prefix(&ls[i], &name_key) || has_prefix(
                &ls[i],
                &desc_key,
            ) || has_prefix(&ls[i], &scope_key))
                invariant
                    i <= ls@.len(),
                    name_key@ == "name:"@,
                    desc_key@ == "description:"@,
                    scope_key@ == "scope:"@,
                    header_end(views(ls@), i as int) == header_end(views(ls@), 0),
                    views(picked@) == views(ls@).subrange(0, i as int),
                decreases ls@.len() - i,
            {
                let line = copy_chars(&ls[i]);
                proof {
                    lemma_views_push(picked@, line);
                }
                picked.push(line);
                assert(views(picked@) =~= views(ls@).subrange(0, i + 1));
                i = i + 1;
            }
        }
        let nl = chars_of("\n");
        let frontmatter = join_chars(&picked, &nl);
        assert(views(picked@) == frontmatter_lines(spec_trim(content@)));

        let name = match self.extract_field(&frontmatter, &chars_of("name")) {
            Some(v) => string_from_chars(&v),
            None => String::from_str("Unknown Skill"),
        };
        let description = match self.extract_field(&frontmatter, &chars_of("description")) {
            Some(v) => string_from_chars(&v),
            None => String::from_str("No description"),
        };
        let scope_str = match self.extract_field(&frontmatter, &chars_of("scope")) {
            Some(v) => v,
            None => chars_of("Project"),
        };
        let scope = if chars_eq(&scope_str, &chars_of("Global")) {
            SkillScope::Global
        } else if chars_eq(&scope_str, &chars_of("User")) {
            SkillScope::User
        } else {
            SkillScope::Project
        };
        Ok(Skill { name, description, commands: Vec::new(), scope })
    }

    /// The value of `field` in `content`, as `spec_extract_field` describes.
    fn extract_field(&self, content: &[char], field: &[char]) -> (r: Option<Vec<char>>)
        ensures
            opt_view(r) == spec_extract_field(content@, field@),
    {
        let ls = lines_of(content);
        let mut key = slice_chars(field, 0, field.len());
        key.push(':');
        let mut i: usize = 0;
        while i < ls.len()
            invariant
                i <= ls@.len(),
                key@ == field@.push(':'),
                views(ls@) == spec_lines(content@),
                key_line(views(ls@), key@, i as int) == key_line(views(ls@), key@, 0),
            decreases ls@.len() - i,
        {
            if has_prefix(&ls[i], &key) {
                let v = second_piece_of(&ls[i], ':');
                return match v {
                    Some(piece) => Some(trim_chars(&piece)),
                    None => None,
                };
            }
            i = i + 1;
        }
        None
    }
}

} // verus!

verus! {

/// A skill held by the registry, with whether it is enabled.
#[derive(Clone)]
pub struct RegisteredSkill {
    pub skill: Arc<Skill>,
    pub enabled: bool,
}

/// The skills known to the platform, keyed by name.
pub struct SkillRegistry {
    skills: Vec<RegisteredSkill>,
}

/// The name under which a registered skill is filed.
pub open spec fn registered_name(r: RegisteredSkill) -> Seq<char> {
    r.skill.name@
}

/// Entries of a registry with pairwise distinct names.
pub open spec fn distinct_names(s: Seq<RegisteredSkill>) -> bool {
    forall|i: int, j: int|
        0 <= i < s.len() && 0 <= j < s.len() && i != j ==> registered_name(s[i])
            != registered_name(s[j])
}

/// Whether some entry is filed under `n`.
pub open spec fn has_name(s: Seq<RegisteredSkill>, n: Seq<char>) -> bool {
    exists|i: int| 0 <= i < s.len() && registered_name(s[i]) == n
}

/// The entry filed under `n`.
pub open spec fn entry_named(s: Seq<RegisteredSkill>, n: Seq<char>) -> (Skill, bool) {
    let i = choose|i: int| 0 <= i < s.len() && registered_name(s[i]) == n;
    (*s[i].skill, s[i].enabled)
}

/// The map from skill name to the skill and its enabled flag.
pub open spec fn registry_map(s: Seq<RegisteredSkill>) -> Map<Seq<char>, (Skill, bool)> {
    Map::new(|n: Seq<char>| has_name(s, n), |n: Seq<char>| entry_named(s, n))
}

proof fn lemma_entry_named(s: Seq<RegisteredSkill>, i: int)
    requires
        distinct_names(s),
        0 <= i < s.len(),
    ensures
        has_name(s, registered_name(s[i])),
        entry_named(s, registered_name(s[i])) == (*s[i].skill, s[i].enabled),
{
    let n = registered_name(s[i]);
    assert(0 <= i < s.len() && registered_name(s[i]) == n);
    let k = choose|k: int| 0 <= k < s.len() && registered_name(s[k]) == n;
    assert(k == i);
}

impl View for SkillRegistry {
    type V = Map<Seq<char>, (Skill, bool)>;

    closed spec fn view(&self) -> Map<Seq<char>, (Skill, bool)> {
        registry_map(self.skills@)
    }
}

impl SkillRegistry {
    /// Names are unique among the entries.
    pub closed spec fn wf(&self) -> bool {
        distinct_names(self.skills@)
    }

    pub fn new() -> (r: Self)
        ensures
            r.wf(),
            r@ == Map::<Seq<char>, (Skill, bool)>::empty(),
    {
        let r = SkillRegistry { skills: Vec::new() };
        assert(r@ =~= Map::<Seq<char>, (Skill, bool)>::empty());
        r
    }

    /// Position of the entry named `name`, if any.
    fn position(&self, name: &String) -> (r: Option<usize>)
        requires
            self.wf(),
        ensures
            r matches Some(i) ==> i < self.skills@.len() && registered_name(self.skills@[i as int])
                == name@,
            r is None ==> !has_name(self.skills@, name@),
    {
        let mut i: usize = 0;
        while i < self.skills.len()
            invariant
                i <= self.skills@.len(),
                forall|k: int| 0 <= k < i ==> registered_name(self.skills@[k]) != name@,
            decreases self.skills@.len() - i,
        {
            if self.skills[i].skill.name == *name {
                return Some(i);
            }
            i = i + 1;
        }
        None
    }

    /// Files `skill` under its name, enabled; a skill of the same name is
    /// replaced.
    pub fn register(&mut self, skill: Skill)
        requires
            old(self).wf(),
        ensures
            final(self).wf(),
            final(self)@ == old(self)@.insert(skill.name@, (skill, true)),
    {
        let ghost old_s = self.skills@;
        let key = skill.name.clone();
        let entry = RegisteredSkill { skill: Arc::new(skill), enabled: true };
        match self.position(&key) {
            Some(i) => {
                self.skills.set(i, entry);
                proof {
                    let s = self.skills@;
                    assert(distinct_names(s)) by {
                        assert forall|a: int, b: int|
                            0 <= a < s.len() && 0 <= b < s.len() && a != b implies registered_name(
                            s[a],
                        ) != registered_name(s[b]) by {
                            if a != i && b != i {
                                assert(s[a] == old_s[a] && s[b] == old_s[b]);
                            } else if a == i {
                                assert(s[b] == old_s[b]);
                            } else {
                                assert(s[a] == old_s[a]);
                            }
                        }
                    }
                    assert forall|n: Seq<char>| #[trigger]
                        registry_map(s).dom().contains(n) == registry_map(old_s).insert(
                            key@,
                            (skill, true),
                        ).dom().contains(n) by {
                        if has_name(old_s, n) {
                            let k = choose|k: int|
                                0 <= k < old_s.len() && registered_name(old_s[k]) == n;
                            if k != i {
                                assert(s[k] == old_s[k]);
                                assert(registered_name(s[k]) == n);
                            }
                        }
                        if n == key@ {
                            assert(registered_name(s[i as int]) == n);
                        }
                        if has_name(s, n) {
                            let k = choose|k: int| 0 <= k < s.len() && registered_name(s[k]) == n;
                            if k != i {
                                assert(s[k] == old_s[k]);
                                assert(registered_name(old_s[k]) == n);
                            }
                        }
                    }
                    assert forall|n: Seq<char>| #[trigger]
                        registry_map(s).dom().contains(n) implies registry_map(s)[n]
                        == registry_map(old_s).insert(key@, (skill, true))[n] by {
                        let k = choose|k: int| 0 <= k < s.len() && registered_name(s[k]) == n;
                        lemma_entry_named(s, k);
                        if k != i {
                            assert(s[k] == old_s[k]);
                            lemma_entry_named(old_s, k);
                        }
                    }
                    assert(registry_map(s) =~= registry_map(old_s).insert(key@, (skill, true)));
                }
            },
            None => {
                self.skills.push(entry);
                proof {
                    let s = self.skills@;
                    assert(s == old_s.push(entry));
                    assert(distinct_names(s)) by {
                        assert forall|a: int, b: int|
                            0 <= a < s.len() && 0 <= b < s.len() && a != b implies registered_name(
                            s[a],
                        ) != registered_name(s[b]) by {
                            if a < old_s.len() && b < old_s.len() {
                                assert(s[a] == old_s[a] && s[b] == old_s[b]);
                            } else if a < old_s.len() {
                                assert(s[a] == old_s[a]);
                            } else {
                                assert(s[b] == old_s[b]);
                            }
                        }
                    }
                    assert forall|n: Seq<char>| #[trigger]
                        registry_map(s).dom().contains(n) == registry_map(old_s).insert(
                            key@,
                            (skill, true),
                        ).dom().contains(n) by {
                        if has_name(old_s, n) {
                            let k = choose|k: int|
                                0 <= k < old_s.len() && registered_name(old_s[k]) == n;
                            assert(s[k] == old_s[k]);
                        }
                        if n == key@ {
                            assert(entry.skill.name@ == key@);
                            assert(registered_name(s[old_s.len() as int]) == n);
                            assert(has_name(s, n));
                        }
                        if has_name(s, n) {
                            let k = choose|k: int| 0 <= k < s.len() && registered_name(s[k]) == n;
                            if k < old_s.len() {
                                assert(s[k] == old_s[k]);
                                assert(registered_name(old_s[k]) == n);
                            } else {
                                assert(n == key@);
                            }
                        }
                    }
                    assert forall|n: Seq<char>| #[trigger]
                        registry_map(s).dom().contains(n) implies registry_map(s)[n]
                        == registry_map(old_s).insert(key@, (skill, true))[n] by {
                        let k = choose|k: int| 0 <= k < s.len() && registered_name(s[k]) == n;
                        lemma_entry_named(s, k);
                        if k < old_s.len() {
                            assert(s[k] == old_s[k]);
                            lemma_entry_named(old_s, k);
                        }
                    }
                    assert(registry_map(s) =~= registry_map(old_s).insert(key@, (skill, true)));
                }
            },
        }
    }
}


/// `Arc::clone`: another handle on the same value.
#[verifier::external_body]
fn share<T>(a: &Arc<T>) -> (r: Arc<T>)
    ensures
        r == *a,
{
    Arc::clone(a)
}

impl SkillRegistry {
    /// The skill filed under `name`.
    pub fn get(&self, name: &str) -> (r: Option<Arc<Skill>>)
        requires
            self.wf(),
        ensures
            r is Some <==> self@.dom().contains(name@),
            r matches Some(a) ==> *a == self@[name@].0,
    {
        let key = String::from_str(name);
        match self.position(&key) {
            Some(i) => {
                proof {
                    lemma_entry_named(self.skills@, i as int);
                }
                Some(share(&self.skills[i].skill))
            },
            None => None,
        }
    }

    /// Sets the enabled flag of the skill filed under `name`; false when
    /// there is none.
    fn set_enabled(&mut self, name: &str, enabled: bool) -> (r: bool)
        requires
            old(self).wf(),
        ensures
            final(self).wf(),
            r == old(self)@.dom().contains(name@),
            final(self)@ == (if r {
                old(self)@.insert(name@, (old(self)@[name@].0, enabled))
            } else {
                old(self)@
            }),
    {
        let key = String::from_str(name);
        let ghost old_s = self.skills@;
        match self.position(&key) {
            Some(i) => {
                proof {
                    lemma_entry_named(old_s, i as int);
                }
                let entry = RegisteredSkill { skill: share(&self.skills[i].skill), enabled };
                self.skills.set(i, entry);
                proof {
                    let s = self.skills@;
                    assert forall|k: int| 0 <= k < s.len() implies registered_name(s[k])
                        == registered_name(old_s[k]) by {
                        if k != i {
                            assert(s[k] == old_s[k]);
                        }
                    }
                    assert(distinct_names(s));
                    assert forall|n: Seq<char>| #[trigger]
                        registry_map(s).dom().contains(n) == registry_map(old_s).dom().contains(
                            n,
                        ) by {
                        if has_name(old_s, n) {
                            let k = choose|k: int|
                                0 <= k < old_s.len() && registered_name(old_s[k]) == n;
                            assert(registered_name(s[k]) == n);
                        }
                        if has_name(s, n) {
                            let k = choose|k: int| 0 <= k < s.len() && registered_name(s[k]) == n;
                            assert(registered_name(old_s[k]) == n);
                        }
                    }
                    assert forall|n: Seq<char>| #[trigger]
                        registry_map(s).dom().contains(n) implies registry_map(s)[n]
                        == registry_map(old_s).insert(key@, (registry_map(old_s)[key@].0, enabled))[n] by {
                        let k = choose|k: int| 0 <= k < s.len() && registered_name(s[k]) == n;
                        lemma_entry_named(s, k);
                        if k != i {
                            assert(s[k] == old_s[k]);
                            lemma_entry_named(old_s, k);
                        }
                    }
                    assert(registry_map(s) =~= registry_map(old_s).insert(
                        key@,
                        (registry_map(old_s)[key@].0, enabled),
                    ));
                }
                true
            },
            None => false,
        }
    }

    /// Enables the skill filed under `name`; false when there is none.
    pub fn enable(&mut self, name: &str) -> (r: bool)
        requires
            old(self).wf(),
        ensures
            final(self).wf(),
            r == old(self)@.dom().contains(name@),
            final(self)@ == (if r {
                old(self)@.insert(name@, (old(self)@[name@].0, true))
            } else {
                old(self)@
            }),
    {
        self.set_enabled(name, true)
    }

    /// Disables the skill filed under `name`; false when there is none.
    pub fn disable(&mut self, name: &str) -> (r: bool)
        requires
            old(self).wf(),
        ensures
            final(self).wf(),
            r == old(self)@.dom().contains(name@),
            final(self)@ == (if r {
                old(self)@.insert(name@, (old(self)@[name@].0, false))
            } else {
                old(self)@
            }),
    {
        self.set_enabled(name, false)
    }

    /// The names of the registered skills whose entry satisfies `only_enabled`
    /// (all of them when it is false).
    fn names(&self, only_enabled: bool) -> (r: Vec<String>)
        requires
            self.wf(),
        ensures
            string_views(r@).no_duplicates(),
            forall|n: Seq<char>|
                string_views(r@).contains(n) <==> (self@.dom().contains(n) && (!only_enabled
                    || self@[n].1)),
    {
        let mut r: Vec<String> = Vec::new();
        let mut i: usize = 0;
        let ghost s = self.skills@;
        let ghost mut src: Seq<int> = Seq::empty();
        while i < self.skills.len()
            invariant
                s == self.skills@,
                distinct_names(s),
                i <= s.len(),
                src.len() == r@.len(),
                forall|m: int|
                    0 <= m < r@.len() ==> 0 <= #[trigger] src[m] < i && registered_name(s[src[m]])
                        == string_views(r@)[m] && (!only_enabled || s[src[m]].enabled),
                forall|k: int|
                    0 <= k < i && (!only_enabled || s[k].enabled) ==> string_views(r@).contains(
                        #[trigger] registered_name(s[k]),
                    ),
                string_views(r@).no_duplicates(),
            decreases s.len() - i,
        {
            if !only_enabled || self.skills[i].enabled {
                let name = self.skills[i].skill.name.clone();
                let ghost old_r = string_views(r@);
                let ghost old_src = src;
                r.push(name);
                proof {
                    src = src.push(i as int);
                }
                assert(string_views(r@) =~= old_r.push(registered_name(s[i as int])));
                assert forall|m: int| 0 <= m < old_r.len() implies old_r[m] != registered_name(
                    s[i as int],
                ) by {
                    assert(src[m] == old_src[m]);
                }
                assert forall|m: int| 0 <= m < r@.len() implies 0 <= #[trigger] src[m] < i + 1
                    && registered_name(s[src[m]]) == string_views(r@)[m] && (!only_enabled
                    || s[src[m]].enabled) by {
                    if m < old_r.len() {
                        assert(src[m] == old_src[m]);
                    }
                }
                assert forall|k: int|
                    0 <= k < i + 1 && (!only_enabled || s[k].enabled) implies string_views(
                    r@,
                ).contains(#[trigger] registered_name(s[k])) by {
                    if k < i {
                        let m = choose|m: int| 0 <= m < old_r.len() && old_r[m] == registered_name(s[k]);
                        assert(string_views(r@)[m] == old_r[m]);
                    } else {
                        assert(string_views(r@)[old_r.len() as int] == registered_name(s[k]));
                    }
                }
            }
            i = i + 1;
        }
        assert forall|n: Seq<char>|
            string_views(r@).contains(n) <==> (self@.dom().contains(n) && (!only_enabled
                || self@[n].1)) by {
            if string_views(r@).contains(n) {
                let m = choose|m: int| 0 <= m < r@.len() && string_views(r@)[m] == n;
                lemma_entry_named(s, src[m]);
            }
            if self@.dom().contains(n) && (!only_enabled || self@[n].1) {
                let k = choose|k: int| 0 <= k < s.len() && registered_name(s[k]) == n;
                lemma_entry_named(s, k);
                assert(string_views(r@).contains(registered_name(s[k])));
            }
        }
        r
    }

    /// The names of all registered skills, each once.
    pub fn list_skills(&self) -> (r: Vec<String>)
        requires
            self.wf(),
        ensures
            string_views(r@).no_duplicates(),
            forall|n: Seq<char>| string_views(r@).contains(n) <==> self@.dom().contains(n),
    {
        self.names(false)
    }

    /// The names of the enabled skills, each once.
    pub fn list_enabled(&self) -> (r: Vec<String>)
        requires
            self.wf(),
        ensures
            string_views(r@).no_duplicates(),
            forall|n: Seq<char>|
                string_views(r@).contains(n) <==> (self@.dom().contains(n) && self@[n].1),
    {
        self.names(true)
    }
}
} // verus!
