//! The registered bindings, by name.

use vstd::prelude::*;
use crate::text;
use crate::types::{sound_settings, LdapSettings, LdapSettingsView};

verus! {

/// A registered binding: what it searches, and what a call of it runs on (the compiled
/// filter, the way to the credential cache).
pub struct LdapProfile<R> {
    pub settings: LdapSettings,
    pub runtime: R,
}

pub struct LdapProfileView<R> {
    pub settings: LdapSettingsView,
    pub runtime: R,
}

impl<R> View for LdapProfile<R> {
    type V = LdapProfileView<R>;

    open spec fn view(&self) -> LdapProfileView<R> {
        LdapProfileView { settings: self.settings@, runtime: self.runtime }
    }
}

/// The registered bindings. No name is taken twice, and every binding is sound.
pub struct Profiles<R> {
    list: Vec<(String, LdapProfile<R>)>,
}

spec fn stands<R>(list: Seq<(String, LdapProfile<R>)>, i: int, name: Seq<char>) -> bool {
    0 <= i < list.len() && list[i].0@ == name
}

spec fn profiles_map<R>(list: Seq<(String, LdapProfile<R>)>) -> Map<
    Seq<char>,
    LdapProfileView<R>,
> {
    Map::new(
        |name: Seq<char>| exists|i: int| stands(list, i, name),
        |name: Seq<char>| list[choose|i: int| stands(list, i, name)].1@,
    )
}

spec fn names_differ<R>(list: Seq<(String, LdapProfile<R>)>) -> bool {
    forall|i: int, k: int, name: Seq<char>|
        #[trigger] stands(list, i, name) && #[trigger] stands(list, k, name) ==> i == k
}

proof fn lemma_profile_at<R>(list: Seq<(String, LdapProfile<R>)>, i: int)
    requires
        names_differ(list),
        0 <= i < list.len(),
    ensures
        profiles_map(list).contains_key(list[i].0@),
        profiles_map(list)[list[i].0@] == list[i].1@,
{
    assert(stands(list, i, list[i].0@));
}

impl<R> View for Profiles<R> {
    type V = Map<Seq<char>, LdapProfileView<R>>;

    closed spec fn view(&self) -> Map<Seq<char>, LdapProfileView<R>> {
        profiles_map(self.list@)
    }
}

impl<R> Profiles<R> {
    #[verifier::type_invariant]
    spec fn inv(self) -> bool {
        &&& names_differ(self.list@)
        &&& forall|i: int| 0 <= i < self.list@.len() ==> sound_settings((#[trigger] self.list@[i]).1.settings@)
    }

    /// No bindings.
    pub fn new() -> (r: Profiles<R>)
        ensures
            r@ == Map::<Seq<char>, LdapProfileView<R>>::empty(),
    {
        let r = Profiles { list: Vec::new() };
        assert(r@ =~= Map::<Seq<char>, LdapProfileView<R>>::empty());
        r
    }

    fn position(&self, name: &str) -> (r: Option<usize>)
        ensures
            match r {
                Some(i) => stands(self.list@, i as int, name@),
                None => forall|i: int| !stands(self.list@, i, name@),
            },
    {
        let mut i: usize = 0;
        while i < self.list.len()
            invariant
                i <= self.list.len(),
                forall|k: int| 0 <= k < i ==> !stands(self.list@, k, name@),
            decreases self.list.len() - i,
        {
            if text::same(self.list[i].0.as_str(), name) {
                return Some(i);
            }
            i += 1;
        }
        None
    }

    /// The binding with a name.
    pub fn get(&self, name: &str) -> (r: Option<&LdapProfile<R>>)
        ensures
            match r {
                Some(p) => {
                    &&& self@.contains_key(name@)
                    &&& p@ == self@[name@]
                    &&& sound_settings(p.settings@)
                },
                None => !self@.contains_key(name@),
            },
    {
        proof {
            use_type_invariant(self);
        }
        match self.position(name) {
            Some(i) => {
                proof {
                    lemma_profile_at(self.list@, i as int);
                }
                Some(&self.list[i].1)
            },
            None => None,
        }
    }

    /// Registers a binding under a name, in place of one that had it.
    pub fn insert(&mut self, name: &str, profile: LdapProfile<R>)
        requires
            sound_settings(profile.settings@),
        ensures
            final(self)@ == old(self)@.insert(name@, profile@),
    {
        proof {
            use_type_invariant(&*self);
        }
        let found = self.position(name);
        let mut list: Vec<(String, LdapProfile<R>)> = Vec::new();
        std::mem::swap(&mut list, &mut self.list);
        let ghost before = list@;
        match found {
            Some(i) => {
                list.set(i, (name.to_owned(), profile));
            },
            None => {
                list.push((name.to_owned(), profile));
            },
        }
        proof {
            let at = match found {
                Some(i) => i as int,
                None => before.len() as int,
            };
            assert forall|i: int, k: int, n: Seq<char>| #[trigger]
                stands(list@, i, n) && #[trigger] stands(list@, k, n) implies i == k by {
                if i != at {
                    assert(stands(before, i, n));
                }
                if k != at {
                    assert(stands(before, k, n));
                }
            }
            let grown = profiles_map(before).insert(name@, profile@);
            lemma_profile_at(list@, at);
            assert forall|n: Seq<char>| #[trigger] grown.contains_key(n) implies profiles_map(
                list@,
            ).contains_key(n) && profiles_map(list@)[n] == grown[n] by {
                if n != name@ {
                    let i = choose|i: int| stands(before, i, n);
                    lemma_profile_at(before, i);
                    assert(list@[i] == before[i]);
                    lemma_profile_at(list@, i);
                }
            }
            assert forall|n: Seq<char>| #[trigger] profiles_map(list@).contains_key(n) implies grown.contains_key(
                n,
            ) by {
                let i = choose|i: int| stands(list@, i, n);
                if i != at {
                    assert(stands(before, i, n));
                }
            }
            assert(profiles_map(list@) =~= grown);
        }
        self.list = list;
    }
}

} // verus!
