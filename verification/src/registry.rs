//! The registry of chat providers: providers filed by name, those that can
//! call tools filed apart, and a default, which is the first name ever
//! registered.
use vstd::prelude::*;

use crate::text::{chars_eq, chars_of, string_views};

verus! {

/// The entry filed under `name`, the latest one when a name was filed twice.
pub open spec fn entry_of<P>(entries: Seq<(Seq<char>, P)>, name: Seq<char>) -> Option<P>
    decreases entries.len(),
{
    if entries.len() == 0 {
        None
    } else if entries.last().0 == name {
        Some(entries.last().1)
    } else {
        entry_of(entries.drop_last(), name)
    }
}

pub open spec fn entry_views<P>(v: Seq<(String, P)>) -> Seq<(Seq<char>, P)> {
    v.map_values(|e: (String, P)| (e.0@, e.1))
}

/// Chat providers by name. `P` is a provider, `T` a provider that calls tools.
pub struct ProviderRegistry<P, T> {
    pub providers: Vec<(String, P)>,
    pub tool_providers: Vec<(String, T)>,
    pub default_provider: Option<String>,
}

/// Finds the latest entry filed under `name`.
fn find_latest<P>(entries: &Vec<(String, P)>, name: &str) -> (r: Option<usize>)
    ensures
        match r {
            Some(k) => k < entries@.len() && entry_of(entry_views(entries@), name@) == Some(entries@[k as int].1),
            None => entry_of(entry_views(entries@), name@) is None,
        },
{
    let target = chars_of(name);
    let mut k: usize = entries.len();
    let ghost ev = entry_views(entries@);
    assert(ev.take(k as int) =~= ev);
    while k > 0
        invariant
            k <= entries@.len(),
            ev == entry_views(entries@),
            target@ == name@,
            entry_of(ev, name@) == entry_of(ev.take(k as int), name@),
        decreases k,
    {
        let j = k - 1;
        assert(ev.take(k as int).drop_last() =~= ev.take(j as int));
        if chars_eq(&chars_of(entries[j].0.as_str()), &target) {
            return Some(j);
        }
        k = j;
    }
    None
}

impl<P, T> ProviderRegistry<P, T> {
    pub open spec fn provider_entries(&self) -> Seq<(Seq<char>, P)> {
        entry_views(self.providers@)
    }

    pub open spec fn tool_entries(&self) -> Seq<(Seq<char>, T)> {
        entry_views(self.tool_providers@)
    }

    pub open spec fn default_name(&self) -> Option<Seq<char>> {
        match self.default_provider {
            Some(n) => Some(n@),
            None => None,
        }
    }

    /// An empty registry without a default.
    pub fn new() -> (r: Self)
        ensures
            r.provider_entries().len() == 0,
            r.tool_entries().len() == 0,
            r.default_name() is None,
    {
        let r = ProviderRegistry { providers: Vec::new(), tool_providers: Vec::new(), default_provider: None };
        assert(r.provider_entries() =~= Seq::<(Seq<char>, P)>::empty());
        assert(r.tool_entries() =~= Seq::<(Seq<char>, T)>::empty());
        r
    }

    /// Makes `name` the default if there is none yet.
    fn settle_default(&mut self, name: &str)
        ensures
            final(self).default_name() == match old(self).default_name() {
                Some(n) => Some(n),
                None => Some(name@),
            },
            final(self).providers == old(self).providers,
            final(self).tool_providers == old(self).tool_providers,
    {
        if self.default_provider.is_none() {
            self.default_provider = Some(String::from_str(name));
        }
    }

    /// Files a provider under `name`; the first name registered becomes the
    /// default.
    pub fn register(&mut self, name: &str, provider: P)
        ensures
            final(self).provider_entries() == old(self).provider_entries().push((name@, provider)),
            final(self).tool_entries() == old(self).tool_entries(),
            final(self).default_name() == match old(self).default_name() {
                Some(n) => Some(n),
                None => Some(name@),
            },
    {
        let ghost before = self.provider_entries();
        self.providers.push((String::from_str(name), provider));
        assert(self.provider_entries() =~= before.push((name@, provider)));
        self.settle_default(name);
    }

    /// Files a provider that calls tools under `name`; the first name
    /// registered becomes the default.
    pub fn register_with_tools(&mut self, name: &str, provider: T)
        ensures
            final(self).tool_entries() == old(self).tool_entries().push((name@, provider)),
            final(self).provider_entries() == old(self).provider_entries(),
            final(self).default_name() == match old(self).default_name() {
                Some(n) => Some(n),
                None => Some(name@),
            },
    {
        let ghost before = self.tool_entries();
        self.tool_providers.push((String::from_str(name), provider));
        assert(self.tool_entries() =~= before.push((name@, provider)));
        self.settle_default(name);
    }

    /// The provider filed under `name`.
    pub fn get(&self, name: &str) -> (r: Option<&P>)
        ensures
            match r {
                Some(p) => entry_of(self.provider_entries(), name@) == Some(*p),
                None => entry_of(self.provider_entries(), name@) is None,
            },
    {
        match find_latest(&self.providers, name) {
            Some(k) => Some(&self.providers[k].1),
            None => None,
        }
    }

    /// The provider that calls tools filed under `name`.
    pub fn get_tool_provider(&self, name: &str) -> (r: Option<&T>)
        ensures
            match r {
                Some(p) => entry_of(self.tool_entries(), name@) == Some(*p),
                None => entry_of(self.tool_entries(), name@) is None,
            },
    {
        match find_latest(&self.tool_providers, name) {
            Some(k) => Some(&self.tool_providers[k].1),
            None => None,
        }
    }

    /// The provider filed under the default name.
    pub fn default(&self) -> (r: Option<&P>)
        ensures
            match self.default_name() {
                None => r is None,
                Some(n) => match r {
                    Some(p) => entry_of(self.provider_entries(), n) == Some(*p),
                    None => entry_of(self.provider_entries(), n) is None,
                },
            },
    {
        match &self.default_provider {
            Some(n) => self.get(n.as_str()),
            None => None,
        }
    }

    /// The provider that calls tools filed under the default name.
    pub fn default_tool_provider(&self) -> (r: Option<&T>)
        ensures
            match self.default_name() {
                None => r is None,
                Some(n) => match r {
                    Some(p) => entry_of(self.tool_entries(), n) == Some(*p),
                    None => entry_of(self.tool_entries(), n) is None,
                },
            },
    {
        match &self.default_provider {
            Some(n) => self.get_tool_provider(n.as_str()),
            None => None,
        }
    }
}

/// Some entry is filed under `n`.
pub open spec fn is_filed<P>(entries: Seq<(Seq<char>, P)>, n: Seq<char>) -> bool {
    exists|i: int| 0 <= i < entries.len() && entries[i].0 == n
}

/// The names filed in `entries`, each once, in the order they were first
/// filed.
fn distinct_names<P>(entries: &Vec<(String, P)>) -> (r: Vec<String>)
    ensures
        string_views(r@).no_duplicates(),
        forall|n: Seq<char>| #[trigger] string_views(r@).contains(n) <==> is_filed(entry_views(entries@), n),
{
    let mut out: Vec<String> = Vec::new();
    let mut i: usize = 0;
    let ghost ev = entry_views(entries@);
    assert(string_views(out@) =~= Seq::<Seq<char>>::empty());
    while i < entries.len()
        invariant
            i <= entries@.len(),
            ev == entry_views(entries@),
            string_views(out@).no_duplicates(),
            forall|n: Seq<char>| #[trigger] string_views(out@).contains(n) <==> is_filed(entry_views(entries@).take(i as int), n),
        decreases entries@.len() - i,
    {
        let name = &entries[i].0;
        let ghost before = string_views(out@);
        let ghost t0 = ev.take(i as int);
        let ghost t1 = ev.take(i + 1);
        assert(t1 =~= t0.push(ev[i as int]));
        let mut seen = false;
        let mut j: usize = 0;
        while j < out.len()
            invariant
                j <= out@.len(),
                before == string_views(out@),
                seen <==> exists|k: int| 0 <= k < j && out@[k]@ == name@,
            decreases out@.len() - j,
        {
            if chars_eq(&chars_of(out[j].as_str()), &chars_of(name.as_str())) {
                seen = true;
            }
            j = j + 1;
        }
        if !seen {
            out.push(name.clone());
            let ghost after = string_views(out@);
            assert(after =~= before.push(name@));
            assert forall|n: Seq<char>| #[trigger] after.contains(n) <==> is_filed(t1, n) by {
                assert(t1[i as int].0 == name@);
                if after.contains(n) {
                    let x = choose|x: int| 0 <= x < after.len() && after[x] == n;
                    if x < before.len() {
                        assert(before[x] == n);
                        assert(before.contains(n));
                        let k = choose|k: int| 0 <= k < t0.len() && t0[k].0 == n;
                        assert(t1[k].0 == n);
                    }
                }
                if is_filed(t1, n) {
                    let k = choose|k: int| 0 <= k < t1.len() && t1[k].0 == n;
                    if k < i {
                        assert(t0[k].0 == n);
                        assert(before.contains(n));
                        let x = choose|x: int| 0 <= x < before.len() && before[x] == n;
                        assert(after[x] == n);
                    } else {
                        assert(after[before.len() as int] == n);
                    }
                }
            }
        } else {
            proof {
                let k = choose|k: int| 0 <= k < out@.len() && out@[k]@ == name@;
                assert(before[k] == name@);
                assert forall|n: Seq<char>| #[trigger] before.contains(n) <==> is_filed(t1, n) by {
                    if before.contains(n) {
                        let m = choose|m: int| 0 <= m < t0.len() && t0[m].0 == n;
                        assert(t1[m].0 == n);
                    }
                    if is_filed(t1, n) {
                        let m = choose|m: int| 0 <= m < t1.len() && t1[m].0 == n;
                        if m == i {
                            assert(n == name@);
                        } else {
                            assert(t0[m].0 == n);
                        }
                    }
                }
            }
        }
        i = i + 1;
    }
    assert(ev.take(entries@.len() as int) =~= ev);
    out
}

impl<P, T> ProviderRegistry<P, T> {
    /// Files a shared provider under `name`, as `register` does.
    pub fn register_boxed(&mut self, name: &str, provider: P)
        ensures
            final(self).provider_entries() == old(self).provider_entries().push((name@, provider)),
            final(self).tool_entries() == old(self).tool_entries(),
            final(self).default_name() == match old(self).default_name() {
                Some(n) => Some(n),
                None => Some(name@),
            },
    {
        self.register(name, provider)
    }

    /// The names under which providers are filed, each once.
    pub fn list_providers(&self) -> (r: Vec<String>)
        ensures
            string_views(r@).no_duplicates(),
            forall|n: Seq<char>| #[trigger] string_views(r@).contains(n) <==> entry_of(self.provider_entries(), n) is Some,
    {
        let r = distinct_names(&self.providers);
        proof {
            assert forall|n: Seq<char>| #[trigger] string_views(r@).contains(n) <==> entry_of(self.provider_entries(), n) is Some by {
                lemma_entry_present(self.provider_entries(), n);
            }
        }
        r
    }

    /// The names under which providers that call tools are filed, each once.
    pub fn list_tool_providers(&self) -> (r: Vec<String>)
        ensures
            string_views(r@).no_duplicates(),
            forall|n: Seq<char>| #[trigger] string_views(r@).contains(n) <==> entry_of(self.tool_entries(), n) is Some,
    {
        let r = distinct_names(&self.tool_providers);
        proof {
            assert forall|n: Seq<char>| #[trigger] string_views(r@).contains(n) <==> entry_of(self.tool_entries(), n) is Some by {
                lemma_entry_present(self.tool_entries(), n);
            }
        }
        r
    }
}

proof fn lemma_entry_present<P>(entries: Seq<(Seq<char>, P)>, n: Seq<char>)
    ensures
        entry_of(entries, n) is Some <==> is_filed(entries, n),
    decreases entries.len(),
{
    if entries.len() > 0 {
        lemma_entry_present(entries.drop_last(), n);
        if exists|i: int| 0 <= i < entries.len() && entries[i].0 == n {
            let i = choose|i: int| 0 <= i < entries.len() && entries[i].0 == n;
            if i < entries.len() - 1 {
                assert(entries.drop_last()[i].0 == n);
            }
        }
        if exists|i: int| 0 <= i < entries.drop_last().len() && entries.drop_last()[i].0 == n {
            let i = choose|i: int| 0 <= i < entries.drop_last().len() && entries.drop_last()[i].0 == n;
            assert(entries[i].0 == n);
        }
    }
}

} // verus!
