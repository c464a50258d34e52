//! Hooks: functions registered under the name of an event, with a priority,
//! and run in the order they were registered when the event is dispatched.
use vstd::prelude::*;

use crate::orchestration::{
    distinct_ids,
    handlers_of,
    lemma_handlers_absent,
    lemma_handlers_at,
    lemma_handlers_update,
};
use crate::text::{chars_eq, chars_of, string_views};

verus! {

/// A function run on an event, given the event's context. Implemented by
/// the users of the registry: a hook succeeds or fails with an error, and
/// its implementer says which through `accepts` and `refusal`. An error
/// stops the dispatch.
pub trait Hook<C> {
    /// Whether the hook succeeds on `context`.
    spec fn accepts(&self, context: C) -> bool;

    /// The error with which the hook fails on `context`.
    spec fn refusal(&self, context: C) -> String;

    fn call(&self, context: &C) -> (r: Result<(), String>)
        ensures
            match r {
                Ok(()) => self.accepts(*context),
                Err(e) => !self.accepts(*context) && e@ == self.refusal(*context)@,
            },
    ;
}

/// The hooks of each event name, each with the priority it was registered
/// with, in the order of registration.
pub struct HookRegistry<H> {
    hooks: Vec<(String, Vec<(H, i32)>)>,
}

pub open spec fn hook_hooks<H>(hs: Seq<(H, i32)>) -> Seq<H> {
    hs.map_values(|p: (H, i32)| p.0)
}

/// The outcome of running `hs` in order on `context`: `Ok` when every hook
/// succeeds, else the error of the first that fails.
pub open spec fn dispatch_outcome<C, H: Hook<C>>(hs: Seq<H>, context: C, r: Result<(), Seq<char>>) -> bool {
    match r {
        Ok(()) => forall|j: int| 0 <= j < hs.len() ==> #[trigger] hs[j].accepts(context),
        Err(e) => exists|i: int|
            #![trigger hs[i]]
            0 <= i < hs.len() && !hs[i].accepts(context) && e == hs[i].refusal(context)@ && forall|j: int|
                0 <= j < i ==> #[trigger] hs[j].accepts(context),
    }
}

impl<H> HookRegistry<H> {
    /// Each event name with its hooks and their priorities.
    pub closed spec fn entries(&self) -> Seq<(Seq<char>, Seq<(H, i32)>)> {
        self.hooks@.map_values(|p: (String, Vec<(H, i32)>)| (p.0@, p.1@))
    }

    /// The event names that have hooks, in the order of their first
    /// registration.
    pub open spec fn names(&self) -> Seq<Seq<char>> {
        self.entries().map_values(|p: (Seq<char>, Seq<(H, i32)>)| p.0)
    }

    /// The hooks registered under `name`, with their priorities, in order.
    pub open spec fn hooks_of(&self, name: Seq<char>) -> Seq<(H, i32)> {
        handlers_of(self.entries(), name)
    }

    pub open spec fn wf(&self) -> bool {
        distinct_ids(self.entries())
    }

    /// A registry with no hooks.
    pub fn new() -> (r: Self)
        ensures
            r.wf(),
            r.entries().len() == 0,
            forall|name: Seq<char>| r.hooks_of(name).len() == 0,
    {
        let r = HookRegistry { hooks: Vec::new() };
        assert(r.entries() =~= Seq::<(Seq<char>, Seq<(H, i32)>)>::empty());
        r
    }

    fn find(&self, name: &str) -> (r: Option<usize>)
        ensures
            match r {
                Some(k) => k < self.entries().len() && self.entries()[k as int].0 == name@,
                None => forall|i: int| 0 <= i < self.entries().len() ==> self.entries()[i].0 != name@,
            },
    {
        let target = chars_of(name);
        let mut k: usize = 0;
        while k < self.hooks.len()
            invariant
                k <= self.hooks@.len(),
                target@ == name@,
                forall|i: int| 0 <= i < k ==> self.entries()[i].0 != name@,
            decreases self.hooks@.len() - k,
        {
            if chars_eq(&chars_of(self.hooks[k].0.as_str()), &target) {
                return Some(k);
            }
            k = k + 1;
        }
        None
    }

    /// Adds `hook` with `priority` after the hooks already registered under
    /// `event_name`.
    pub fn register(&mut self, event_name: &str, priority: i32, hook: H)
        requires
            old(self).wf(),
        ensures
            final(self).wf(),
            final(self).hooks_of(event_name@) == old(self).hooks_of(event_name@).push((hook, priority)),
            forall|other: Seq<char>| other != event_name@ ==> final(self).hooks_of(other) == old(self).hooks_of(other),
            forall|other: Seq<char>| old(self).names().contains(other) ==> final(self).names().contains(other),
            final(self).names().contains(event_name@),
    {
        let ghost s0 = self.entries();
        match self.find(event_name) {
            Some(k) => {
                let mut entry = self.hooks.remove(k);
                entry.1.push((hook, priority));
                self.hooks.insert(k, entry);
                let ghost s1 = self.entries();
                assert(s1 =~= s0.update(k as int, (event_name@, s0[k as int].1.push((hook, priority)))));
                assert(distinct_ids(s1));
                proof {
                    lemma_handlers_at(s0, k as int);
                    lemma_handlers_at(s1, k as int);
                    assert forall|other: Seq<char>| other != event_name@ implies handlers_of(s1, other)
                        == handlers_of(s0, other) by {
                        lemma_handlers_update(s0, k as int, s0[k as int].1.push((hook, priority)), other);
                    }
                    let a = s0.map_values(|p: (Seq<char>, Seq<(H, i32)>)| p.0);
                    let b = s1.map_values(|p: (Seq<char>, Seq<(H, i32)>)| p.0);
                    assert forall|other: Seq<char>| a.contains(other) implies b.contains(other) by {
                        let w = choose|w: int| 0 <= w < a.len() && a[w] == other;
                        assert(b[w] == other);
                    }
                    assert(s1.map_values(|p: (Seq<char>, Seq<(H, i32)>)| p.0)[k as int] == event_name@);
                }
            },
            None => {
                let mut hs: Vec<(H, i32)> = Vec::new();
                hs.push((hook, priority));
                self.hooks.push((String::from_str(event_name), hs));
                let ghost s1 = self.entries();
                assert(s1 =~= s0.push((event_name@, seq![(hook, priority)])));
                assert(s1.drop_last() =~= s0);
                proof {
                    lemma_handlers_absent(s0, event_name@);
                    let a = s0.map_values(|p: (Seq<char>, Seq<(H, i32)>)| p.0);
                    let b = s1.map_values(|p: (Seq<char>, Seq<(H, i32)>)| p.0);
                    assert forall|other: Seq<char>| a.contains(other) implies b.contains(other) by {
                        let w = choose|w: int| 0 <= w < a.len() && a[w] == other;
                        assert(b[w] == other);
                    }
                    assert(s1.map_values(|p: (Seq<char>, Seq<(H, i32)>)| p.0)[s0.len() as int] == event_name@);
                }
                assert(handlers_of(s0, event_name@).push((hook, priority)) =~= seq![(hook, priority)]);
            },
        }
    }

    /// The event names that have hooks, each once, in the order of their
    /// first registration.
    pub fn list_hooks(&self) -> (r: Vec<String>)
        ensures
            string_views(r@) == self.names(),
    {
        let mut out: Vec<String> = Vec::new();
        let mut k: usize = 0;
        while k < self.hooks.len()
            invariant
                k <= self.hooks@.len(),
                string_views(out@) == self.entries().take(k as int).map_values(
                    |p: (Seq<char>, Seq<(H, i32)>)| p.0,
                ),
            decreases self.hooks@.len() - k,
        {
            let ghost before = string_views(out@);
            out.push(self.hooks[k].0.clone());
            assert(string_views(out@) =~= before.push(self.hooks@[k as int].0@));
            assert(self.entries()[k as int].0 == self.hooks@[k as int].0@);
            assert(self.entries().take(k + 1) =~= self.entries().take(k as int).push(self.entries()[k as int]));
            assert(string_views(out@) =~= self.entries().take(k + 1).map_values(
                |p: (Seq<char>, Seq<(H, i32)>)| p.0,
            ));
            k = k + 1;
        }
        assert(self.entries().take(k as int) =~= self.entries());
        out
    }

    /// Runs the hooks registered under `event_name`, in the order they were
    /// registered, on `context`; the first error is returned and the later
    /// hooks are not run. `Ok` when no hook is registered under the name.
    pub fn dispatch<C>(&self, event_name: &str, context: &C) -> (r: Result<(), String>)
        where
            H: Hook<C>,
        requires
            self.wf(),
        ensures
            dispatch_outcome(
                hook_hooks(self.hooks_of(event_name@)),
                *context,
                match r {
                    Ok(()) => Ok(()),
                    Err(e) => Err(e@),
                },
            ),
    {
        match self.find(event_name) {
            Some(k) => {
                proof {
                    lemma_handlers_at(self.entries(), k as int);
                }
                let hs = &self.hooks[k].1;
                let ghost hv = hook_hooks(hs@);
                assert(hv == hook_hooks(self.hooks_of(event_name@)));
                let mut i: usize = 0;
                while i < hs.len()
                    invariant
                        i <= hs@.len(),
                        hv == hook_hooks(hs@),
                        hv == hook_hooks(self.hooks_of(event_name@)),
                        forall|j: int| 0 <= j < i ==> #[trigger] hv[j].accepts(*context),
                    decreases hs@.len() - i,
                {
                    assert(hv[i as int] == hs@[i as int].0);
                    match hs[i].0.call(context) {
                        Ok(()) => {},
                        Err(e) => {
                            assert(!hv[i as int].accepts(*context));
                            assert(dispatch_outcome(hv, *context, Err(e@)));
                            return Err(e);
                        },
                    }
                    i = i + 1;
                }
                Ok(())
            },
            None => {
                proof {
                    lemma_handlers_absent(self.entries(), event_name@);
                }
                Ok(())
            },
        }
    }
}

} // verus!
