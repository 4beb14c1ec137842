//! Saved option profiles: named option maps with creation and update
//! stamps.

use vstd::prelude::*;
use crate::stats::now_rfc3339;
use crate::text::str_eq;

verus! {

/// Declares `serde_json::Value` so that option values can be held.
#[verifier::external_type_specification]
#[verifier::external_body]
pub struct ExJsonValue(serde_json::Value);

/// A saved set of command options. Option names are unique.
#[derive(Debug, Clone)]
pub struct Profile {
    pub name: String,
    pub description: String,
    pub created_at: String,
    pub updated_at: String,
    pub command_type: String,
    pub subcommand_type: String,
    /// Options in insertion order, names unique: a vector rather than a
    /// hash map, since vstd specifies hash maps only for keys with a
    /// specified hash, which `String` keys do not have.
    pub options: Vec<(String, serde_json::Value)>,
}

/// The value stored under `key`, if any.
pub open spec fn option_lookup(opts: Seq<(String, serde_json::Value)>, key: Seq<char>) -> Option<
    serde_json::Value,
>
    decreases opts.len(),
{
    if opts.len() == 0 {
        None
    } else if opts.last().0@ == key {
        Some(opts.last().1)
    } else {
        option_lookup(opts.drop_last(), key)
    }
}

pub open spec fn keys_unique(opts: Seq<(String, serde_json::Value)>) -> bool {
    forall|i: int, j: int| 0 <= i < j < opts.len() ==> opts[i].0@ != opts[j].0@
}

proof fn lemma_lookup_at(opts: Seq<(String, serde_json::Value)>, i: int)
    requires
        keys_unique(opts),
        0 <= i < opts.len(),
    ensures
        option_lookup(opts, opts[i].0@) == Some(opts[i].1),
    decreases opts.len(),
{
    if i < opts.len() - 1 {
        assert(opts.last().0@ != opts[i].0@);
        lemma_lookup_at(opts.drop_last(), i);
    }
}

proof fn lemma_lookup_absent(opts: Seq<(String, serde_json::Value)>, key: Seq<char>)
    requires
        forall|i: int| 0 <= i < opts.len() ==> opts[i].0@ != key,
    ensures
        option_lookup(opts, key) is None,
    decreases opts.len(),
{
    if opts.len() > 0 {
        lemma_lookup_absent(opts.drop_last(), key);
    }
}

proof fn lemma_lookup_found(opts: Seq<(String, serde_json::Value)>, key: Seq<char>)
    requires
        option_lookup(opts, key) is Some,
    ensures
        exists|i: int| 0 <= i < opts.len() && opts[i].0@ == key && option_lookup(opts, key) == Some(opts[i].1),
    decreases opts.len(),
{
    if opts.last().0@ != key {
        lemma_lookup_found(opts.drop_last(), key);
        let i = choose|i: int| 0 <= i < opts.drop_last().len() && opts.drop_last()[i].0@ == key
            && option_lookup(opts.drop_last(), key) == Some(opts.drop_last()[i].1);
        assert(opts[i] == opts.drop_last()[i]);
    } else {
        assert(opts[opts.len() - 1].0@ == key);
    }
}

fn find_option(opts: &Vec<(String, serde_json::Value)>, key: &str) -> (r: Option<usize>)
    ensures
        match r {
            Some(i) => i < opts@.len() && opts@[i as int].0@ == key@,
            None => forall|i: int| 0 <= i < opts@.len() ==> opts@[i].0@ != key@,
        },
{
    let mut i: usize = 0;
    while i < opts.len()
        invariant
            i <= opts@.len(),
            forall|k: int| 0 <= k < i ==> opts@[k].0@ != key@,
        decreases opts@.len() - i,
    {
        if str_eq(opts[i].0.as_str(), key) {
            return Some(i);
        }
        i = i + 1;
    }
    None
}

impl Profile {
    pub open spec fn wf(&self) -> bool {
        keys_unique(self.options@)
    }

    /// A profile without options, created and updated at `now`.
    pub fn new_at(
        name: &str,
        command_type: &str,
        subcommand_type: &str,
        description: Option<&str>,
        now: &str,
    ) -> (r: Self)
        ensures
            r.wf(),
            r.name@ == name@,
            r.command_type@ == command_type@,
            r.subcommand_type@ == subcommand_type@,
            r.description@ == match description {
                Some(d) => d@,
                None => Seq::<char>::empty(),
            },
            r.created_at@ == now@,
            r.updated_at@ == now@,
            r.options@.len() == 0,
    {
        let desc = match description {
            Some(d) => String::from_str(d),
            None => String::new(),
        };
        Profile {
            name: String::from_str(name),
            description: desc,
            created_at: String::from_str(now),
            updated_at: String::from_str(now),
            command_type: String::from_str(command_type),
            subcommand_type: String::from_str(subcommand_type),
            options: Vec::new(),
        }
    }

    /// A profile without options, stamped with the current time.
    pub fn new(name: &str, command_type: &str, subcommand_type: &str, description: Option<&str>) -> (r:
        Self)
        ensures
            r.wf(),
            r.name@ == name@,
            r.command_type@ == command_type@,
            r.subcommand_type@ == subcommand_type@,
            r.created_at@ == r.updated_at@,
            r.options@.len() == 0,
    {
        let now = now_rfc3339();
        Profile::new_at(name, command_type, subcommand_type, description, now.as_str())
    }

    /// Sets option `key` to `value` (replacing an earlier value) and
    /// stamps the profile as updated at `now`.
    pub fn set_option_at(&mut self, key: &str, value: serde_json::Value, now: &str)
        requires
            old(self).wf(),
        ensures
            final(self).wf(),
            final(self).updated_at@ == now@,
            final(self).name == old(self).name,
            final(self).description == old(self).description,
            final(self).created_at == old(self).created_at,
            final(self).command_type == old(self).command_type,
            final(self).subcommand_type == old(self).subcommand_type,
            option_lookup(final(self).options@, key@) == Some(value),
            forall|k: Seq<char>|
                k != key@ ==> option_lookup(final(self).options@, k) == option_lookup(
                    old(self).options@,
                    k,
                ),
    {
        let ghost before = self.options@;
        match find_option(&self.options, key) {
            Some(i) => {
                self.options.set(i, (String::from_str(key), value));
                proof {
                    let after = self.options@;
                    assert(keys_unique(after)) by {
                        assert forall|a: int, b: int| 0 <= a < b < after.len() implies after[a].0@
                            != after[b].0@ by {
                            if a == i {
                                assert(before[b].0@ != before[i as int].0@);
                            } else if b == i {
                                assert(before[a].0@ != before[i as int].0@);
                            } else {
                                assert(before[a].0@ != before[b].0@);
                            }
                        }
                    }
                    lemma_lookup_at(after, i as int);
                    assert forall|k: Seq<char>| k != key@ implies option_lookup(after, k)
                        == option_lookup(before, k) by {
                        if option_lookup(after, k) is Some {
                            lemma_lookup_found(after, k);
                            let j = choose|j: int| 0 <= j < after.len() && after[j].0@ == k
                                && option_lookup(after, k) == Some(after[j].1);
                            assert(j != i);
                            lemma_lookup_at(before, j);
                        } else if option_lookup(before, k) is Some {
                            lemma_lookup_found(before, k);
                            let j = choose|j: int| 0 <= j < before.len() && before[j].0@ == k
                                && option_lookup(before, k) == Some(before[j].1);
                            assert(j != i);
                            lemma_lookup_at(after, j);
                        }
                    }
                }
            },
            None => {
                self.options.push((String::from_str(key), value));
                proof {
                    let after = self.options@;
                    assert(after.drop_last() =~= before);
                    assert forall|k: Seq<char>| k != key@ implies option_lookup(after, k)
                        == option_lookup(before, k) by {}
                }
            },
        }
        self.updated_at = String::from_str(now);
    }

    /// Sets option `key` to `value` and refreshes the update stamp from
    /// the clock.
    pub fn set_option(&mut self, key: &str, value: serde_json::Value)
        requires
            old(self).wf(),
        ensures
            final(self).wf(),
            final(self).name == old(self).name,
            final(self).description == old(self).description,
            final(self).created_at == old(self).created_at,
            final(self).command_type == old(self).command_type,
            final(self).subcommand_type == old(self).subcommand_type,
            option_lookup(final(self).options@, key@) == Some(value),
            forall|k: Seq<char>|
                k != key@ ==> option_lookup(final(self).options@, k) == option_lookup(
                    old(self).options@,
                    k,
                ),
    {
        let now = now_rfc3339();
        self.set_option_at(key, value, now.as_str());
    }

    /// The value of option `key`, if set.
    pub fn get_option(&self, key: &str) -> (r: Option<&serde_json::Value>)
        requires
            self.wf(),
        ensures
            match r {
                Some(v) => option_lookup(self.options@, key@) == Some(*v),
                None => option_lookup(self.options@, key@) is None,
            },
    {
        match find_option(&self.options, key) {
            Some(i) => {
                proof {
                    lemma_lookup_at(self.options@, i as int);
                }
                Some(&self.options[i].1)
            },
            None => {
                proof {
                    lemma_lookup_absent(self.options@, key@);
                }
                None
            },
        }
    }
}

} // verus!
