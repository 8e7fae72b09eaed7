//! Named variable environments and `{{variable}}` template resolution.

use vstd::prelude::*;

use crate::string_map::StringMap;
use crate::text;

verus! {

broadcast use vstd::std_specs::vec::group_vec_axioms, vstd::seq::group_seq_axioms;

/// A named set of text variables.
#[derive(Debug)]
pub struct Environment {
    pub name: String,
    pub variables: StringMap,
}

/// The placeholder text of a variable: its name inside double braces.
pub open spec fn placeholder(key: Seq<char>) -> Seq<char> {
    "{{"@ + key + "}}"@
}

/// The template with each variable's placeholder replaced by its value, one
/// variable after another in entry order.
pub open spec fn spec_resolve(kvs: Seq<(Seq<char>, Seq<char>)>, t: Seq<char>) -> Seq<char>
    decreases kvs.len(),
{
    if kvs.len() == 0 {
        t
    } else {
        spec_resolve(kvs.drop_first(), text::spec_replace(t, placeholder(kvs[0].0), kvs[0].1))
    }
}

impl Environment {
    /// An environment with the given name and no variables.
    pub fn new(name: &str) -> (r: Environment)
        ensures
            r.name@ == name@,
            r.variables.model() == Map::<Seq<char>, Seq<char>>::empty(),
            r.variables.kvs() == Seq::<(Seq<char>, Seq<char>)>::empty(),
    {
        Environment { name: name.to_owned(), variables: StringMap::new() }
    }

    /// Binds a variable, overwriting any earlier value.
    pub fn set(&mut self, key: &str, value: &str)
        ensures
            final(self).name == old(self).name,
            final(self).variables.model() == old(self).variables.model().insert(key@, value@),
    {
        self.variables.insert(key.to_owned(), value.to_owned());
    }

    /// The value of a variable, if it is bound.
    pub fn get(&self, key: &str) -> (r: Option<&str>)
        ensures
            match r {
                Some(v) => self.variables.model().contains_key(key@) && v@
                    == self.variables.model()[key@],
                None => !self.variables.model().contains_key(key@),
            },
    {
        match self.variables.get(key) {
            Some(v) => Some(v.as_str()),
            None => None,
        }
    }

    /// Unbinds a variable, returning the value it had.
    pub fn remove(&mut self, key: &str) -> (r: Option<String>)
        ensures
            final(self).name == old(self).name,
            final(self).variables.model() == old(self).variables.model().remove(key@),
            match r {
                Some(v) => old(self).variables.model().contains_key(key@) && v@ == old(
                    self,
                ).variables.model()[key@],
                None => !old(self).variables.model().contains_key(key@),
            },
    {
        self.variables.remove(key)
    }

    /// Whether a variable is bound.
    pub fn contains(&self, key: &str) -> (r: bool)
        ensures
            r == self.variables.model().contains_key(key@),
    {
        self.variables.contains_key(key)
    }

    /// The template with every bound variable's placeholder replaced by its
    /// value, as [`spec_resolve`] states; unknown placeholders stand.
    #[verifier::loop_isolation(false)]
    pub fn resolve_template(&self, template: &str) -> (r: String)
        ensures
            r@ == spec_resolve(self.variables.kvs(), template@),
    {
        let ghost kvs = self.variables.kvs();
        let n = self.variables.len();
        let mut result = template.to_owned();
        let mut i: usize = 0;
        proof {
            assert(kvs.skip(0) =~= kvs);
        }
        while i < n
            invariant
                i <= n,
                spec_resolve(kvs, template@) == spec_resolve(kvs.skip(i as int), result@),
            decreases n - i,
        {
            proof {
                assert(kvs.skip(i as int)[0] == kvs[i as int]);
                assert(kvs.skip(i as int).drop_first() =~= kvs.skip(i + 1));
            }
            let mut pat = String::new();
            pat.append("{{");
            pat.append(self.variables.key_at(i).as_str());
            pat.append("}}");
            proof {
                assert(pat@ =~= placeholder(kvs[i as int].0));
            }
            result = text::replace_all(
                result.as_str(),
                pat.as_str(),
                self.variables.value_at(i).as_str(),
            );
            i = i + 1;
        }
        proof {
            assert(kvs.skip(n as int) =~= Seq::<(Seq<char>, Seq<char>)>::empty());
        }
        result
    }

    /// Resolves a request URL through the variables.
    pub fn resolve_request_url(&self, url: &str) -> (r: String)
        ensures
            r@ == spec_resolve(self.variables.kvs(), url@),
    {
        self.resolve_template(url)
    }

    /// Resolves a header value through the variables.
    pub fn resolve_header_value(&self, value: &str) -> (r: String)
        ensures
            r@ == spec_resolve(self.variables.kvs(), value@),
    {
        self.resolve_template(value)
    }
}

/// The position of the first environment with the given name, if any.
pub open spec fn find_env(envs: Seq<Environment>, name: Seq<char>) -> Option<int>
    decreases envs.len(),
{
    if envs.len() == 0 {
        None
    } else if envs[0].name@ == name {
        Some(0int)
    } else {
        match find_env(envs.drop_first(), name) {
            Some(i) => Some(i + 1),
            None => None,
        }
    }
}

/// A collection of environments with at most one marked active.
#[derive(Debug)]
pub struct EnvironmentSet {
    pub active: Option<String>,
    pub environments: Vec<Environment>,
}

impl EnvironmentSet {
    /// An empty set with no active environment.
    pub fn new() -> (r: EnvironmentSet)
        ensures
            r.active is None,
            r.environments@.len() == 0,
    {
        EnvironmentSet { active: None, environments: Vec::new() }
    }

    /// Appends an environment.
    pub fn add(&mut self, env: Environment)
        ensures
            final(self).active == old(self).active,
            final(self).environments@ == old(self).environments@.push(env),
    {
        self.environments.push(env);
    }

    /// The first environment with the given name, if any.
    #[verifier::loop_isolation(false)]
    pub fn get(&self, name: &str) -> (r: Option<&Environment>)
        ensures
            match r {
                Some(e) => find_env(self.environments@, name@) matches Some(i) && *e
                    == self.environments@[i],
                None => find_env(self.environments@, name@) is None,
            },
    {
        let n = self.environments.len();
        let mut i: usize = 0;
        proof {
            assert(self.environments@.skip(0) =~= self.environments@);
        }
        while i < n
            invariant
                n == self.environments@.len(),
                i <= n,
                forall|k: int| 0 <= k < i ==> self.environments@[k].name@ != name@,
                match find_env(self.environments@.skip(i as int), name@) {
                    Some(j) => find_env(self.environments@, name@) == Some(j + i),
                    None => find_env(self.environments@, name@) is None,
                },
            decreases n - i,
        {
            proof {
                assert(self.environments@.skip(i as int)[0] == self.environments@[i as int]);
                assert(self.environments@.skip(i as int).drop_first() =~= self.environments@.skip(
                    i + 1,
                ));
            }
            if text::str_eq(self.environments[i].name.as_str(), name) {
                return Some(&self.environments[i]);
            }
            i = i + 1;
        }
        proof {
            assert(self.environments@.skip(n as int) =~= Seq::<Environment>::empty());
        }
        None
    }

    /// The position of the first environment with the given name, if any.
    #[verifier::loop_isolation(false)]
    fn position_of(&self, name: &str) -> (r: Option<usize>)
        ensures
            match r {
                Some(i) => find_env(self.environments@, name@) == Some(i as int) && i
                    < self.environments@.len(),
                None => find_env(self.environments@, name@) is None,
            },
    {
        let n = self.environments.len();
        let mut i: usize = 0;
        proof {
            assert(self.environments@.skip(0) =~= self.environments@);
        }
        while i < n
            invariant
                n == self.environments@.len(),
                i <= n,
                match find_env(self.environments@.skip(i as int), name@) {
                    Some(j) => find_env(self.environments@, name@) == Some(j + i),
                    None => find_env(self.environments@, name@) is None,
                },
            decreases n - i,
        {
            proof {
                assert(self.environments@.skip(i as int)[0] == self.environments@[i as int]);
                assert(self.environments@.skip(i as int).drop_first() =~= self.environments@.skip(
                    i + 1,
                ));
            }
            if text::str_eq(self.environments[i].name.as_str(), name) {
                return Some(i);
            }
            i = i + 1;
        }
        proof {
            assert(self.environments@.skip(n as int) =~= Seq::<Environment>::empty());
        }
        None
    }

    /// A mutable borrow of the first environment with the given name.
    pub fn get_mut(&mut self, name: &str) -> (r: Option<&mut Environment>)
        ensures
            match find_env(old(self).environments@, name@) {
                Some(i) => {
                    &&& r is Some
                    &&& *r.unwrap() == old(self).environments@[i]
                    &&& final(self).active == old(self).active
                    &&& final(self).environments@ == old(self).environments@.update(
                        i,
                        *final(r.unwrap()),
                    )
                },
                None => r is None && *final(self) == *old(self),
            },
    {
        match self.position_of(name) {
            Some(i) => Some(&mut self.environments[i]),
            None => None,
        }
    }

    /// Removes the first environment with the given name, returning it.
    pub fn remove(&mut self, name: &str) -> (r: Option<Environment>)
        ensures
            final(self).active == old(self).active,
            match r {
                Some(e) => {
                    &&& find_env(old(self).environments@, name@) matches Some(i)
                    &&& e == old(self).environments@[i]
                    &&& final(self).environments@ == old(self).environments@.remove(i)
                },
                None => {
                    &&& find_env(old(self).environments@, name@) is None
                    &&& final(self).environments@ == old(self).environments@
                },
            },
    {
        match self.position_of(name) {
            Some(i) => Some(self.environments.remove(i)),
            None => None,
        }
    }

    /// Marks the named environment active, whether or not it exists yet.
    pub fn set_active(&mut self, name: &str)
        ensures
            final(self).environments@ == old(self).environments@,
            final(self).active matches Some(a) && a@ == name@,
    {
        self.active = Some(name.to_owned());
    }

    /// The active environment, when one is named and present.
    pub fn get_active(&self) -> (r: Option<&Environment>)
        ensures
            match self.active {
                Some(a) => match r {
                    Some(e) => find_env(self.environments@, a@) matches Some(i) && *e
                        == self.environments@[i],
                    None => find_env(self.environments@, a@) is None,
                },
                None => r is None,
            },
    {
        match &self.active {
            Some(name) => self.get(name.as_str()),
            None => None,
        }
    }

    /// A mutable borrow of the active environment, when one is named and
    /// present.
    pub fn get_active_mut(&mut self) -> (r: Option<&mut Environment>)
        ensures
            match old(self).active {
                Some(a) => match find_env(old(self).environments@, a@) {
                    Some(i) => {
                        &&& r is Some
                        &&& *r.unwrap() == old(self).environments@[i]
                        &&& final(self).active == old(self).active
                        &&& final(self).environments@ == old(self).environments@.update(
                            i,
                            *final(r.unwrap()),
                        )
                    },
                    None => r is None && *final(self) == *old(self),
                },
                None => r is None && *final(self) == *old(self),
            },
    {
        let name = match &self.active {
            Some(n) => n.clone(),
            None => {
                return None;
            },
        };
        self.get_mut(name.as_str())
    }
}

impl Default for EnvironmentSet {
    /// An empty set with no active environment.
    fn default() -> (r: EnvironmentSet)
        ensures
            r.active is None,
            r.environments@.len() == 0,
    {
        Self::new()
    }
}

} // verus!
