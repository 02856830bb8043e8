//! The configuration record: the validators by name, the fail-fast flag and
//! the fixtures directory.

use vstd::prelude::*;
use crate::error::{ErrorView, ValidatorError};
use crate::text::{chars_of, seq_eq};

verus! {

/// How one validator runs.
#[derive(Debug, Clone)]
pub struct ValidatorConfig {
    /// The container image, `name:tag`.
    pub container: String,
    /// The path of the host validator script, relative to the book root.
    pub script: String,
    /// The command that runs a block's content inside the sandbox. Where it is
    /// absent a default is chosen by the validator's name.
    pub exec_command: Option<String>,
}

#[derive(Debug, Clone)]
struct ValidatorEntry {
    name: String,
    config: ValidatorConfig,
}

/// The validators of a configuration, each under its name. No name occurs
/// twice.
#[derive(Debug)]
pub struct ValidatorTable {
    entries: Vec<ValidatorEntry>,
}

/// The whole configuration of the preprocessor.
#[derive(Debug, Clone)]
pub struct Config {
    /// The validators by name.
    pub validators: ValidatorTable,
    /// Stop at the first failure. Validation stops at the first failure
    /// whatever this says.
    pub fail_fast: bool,
    /// A directory that is mounted into every sandbox, relative to the book
    /// root unless absolute.
    pub fixtures_dir: Option<String>,
}

/// The value of the fail-fast flag where the configuration does not set it.
pub fn default_fail_fast() -> (r: bool)
    ensures
        r,
{
    true
}

spec fn names_of(entries: Seq<ValidatorEntry>) -> Seq<Seq<char>> {
    Seq::new(entries.len(), |i: int| entries[i].name@)
}

spec fn configs_of(entries: Seq<ValidatorEntry>) -> Seq<ValidatorConfig> {
    Seq::new(entries.len(), |i: int| entries[i].config)
}

proof fn lemma_index_of_distinct(names: Seq<Seq<char>>, i: int)
    requires
        names.no_duplicates(),
        0 <= i < names.len(),
    ensures
        names.contains(names[i]),
        names.index_of(names[i]) == i,
{
    let j = names.index_of(names[i]);
    assert(names[j] == names[i]);
}

impl ValidatorTable {
    #[verifier::type_invariant]
    spec fn distinct(self) -> bool {
        names_of(self.entries@).no_duplicates()
    }

    /// The names, in the order in which they were first inserted.
    pub closed spec fn keys(&self) -> Seq<Seq<char>> {
        names_of(self.entries@)
    }

    /// The definitions, in the order of their names.
    pub closed spec fn values(&self) -> Seq<ValidatorConfig> {
        configs_of(self.entries@)
    }

    /// The definition under a name.
    pub open spec fn lookup(&self, name: Seq<char>) -> Option<ValidatorConfig> {
        if self.keys().contains(name) {
            Some(self.values()[self.keys().index_of(name)])
        } else {
            None
        }
    }

    /// A table without validators.
    pub fn new() -> (r: Self)
        ensures
            r.keys() == Seq::<Seq<char>>::empty(),
            r.values() == Seq::<ValidatorConfig>::empty(),
    {
        let entries: Vec<ValidatorEntry> = Vec::new();
        assert(names_of(entries@) =~= Seq::<Seq<char>>::empty());
        assert(configs_of(entries@) =~= Seq::<ValidatorConfig>::empty());
        ValidatorTable { entries }
    }

    fn position(&self, name: &Vec<char>) -> (r: Option<usize>)
        ensures
            match r {
                Some(i) => i < self.entries.len() && self.keys()[i as int] == name@
                    && self.keys().contains(name@) && self.keys().index_of(name@) == i,
                None => !self.keys().contains(name@),
            },
    {
        proof {
            use_type_invariant(self);
        }
        let mut i: usize = 0;
        while i < self.entries.len()
            invariant
                i <= self.entries.len(),
                self.keys().no_duplicates(),
                self.keys().len() == self.entries.len(),
                forall|k: int| 0 <= k < i ==> self.keys()[k] != name@,
            decreases self.entries.len() - i,
        {
            let entry_name = chars_of(self.entries[i].name.as_str());
            if seq_eq(&entry_name, name) {
                proof {
                    lemma_index_of_distinct(self.keys(), i as int);
                }
                return Some(i);
            }
            i += 1;
        }
        None
    }

    /// The definition under `name`.
    pub fn get(&self, name: &str) -> (r: Option<&ValidatorConfig>)
        ensures
            match r {
                Some(config) => self.lookup(name@) == Some(*config),
                None => self.lookup(name@) is None,
            },
    {
        match self.position(&chars_of(name)) {
            Some(i) => Some(&self.entries[i].config),
            None => None,
        }
    }

    /// Whether a definition stands under `name`.
    pub fn contains_key(&self, name: &str) -> (r: bool)
        ensures
            r == self.keys().contains(name@),
    {
        self.position(&chars_of(name)).is_some()
    }

    /// Puts `config` under `name`, in place of a definition that stood there.
    pub fn insert(&mut self, name: String, config: ValidatorConfig)
        ensures
            final(self).lookup(name@) == Some(config),
            forall|other: Seq<char>|
                other != name@ ==> final(self).lookup(other) == old(self).lookup(other),
            final(self).keys() == if old(self).keys().contains(name@) {
                old(self).keys()
            } else {
                old(self).keys().push(name@)
            },
    {
        proof {
            use_type_invariant(&*self);
        }
        let ghost key = name@;
        let ghost before = names_of(self.entries@);
        let found = self.position(&chars_of(name.as_str()));
        let mut entries: Vec<ValidatorEntry> = Vec::new();
        std::mem::swap(&mut entries, &mut self.entries);
        match found {
            Some(i) => {
                entries.set(i, ValidatorEntry { name, config });
                assert(names_of(entries@) =~= before);
                assert(configs_of(entries@) =~= old(self).values().update(i as int, config));
            },
            None => {
                entries.push(ValidatorEntry { name, config });
                assert(names_of(entries@) =~= before.push(key));
                assert(configs_of(entries@) =~= old(self).values().push(config));
            },
        }
        let ghost after = names_of(entries@);
        proof {
            assert forall|other: Seq<char>| before.contains(other) implies after.contains(other)
                && after.index_of(other) == before.index_of(other) by {
                let j = before.index_of(other);
                assert(after[j] == other);
                lemma_index_of_distinct(after, j);
            }
            assert forall|other: Seq<char>| other != key && after.contains(other)
                implies before.contains(other) by {
                let k = after.index_of(other);
                assert(before[k] == other);
            }
            if !before.contains(key) {
                lemma_index_of_distinct(after, before.len() as int);
            }
        }
        self.entries = entries;
    }

    /// The number of validators. The names and the definitions correspond
    /// one to one, and no name occurs twice.
    pub fn len(&self) -> (r: usize)
        ensures
            r == self.keys().len(),
            self.keys().len() == self.values().len(),
            self.keys().no_duplicates(),
    {
        proof {
            use_type_invariant(self);
        }
        self.entries.len()
    }

    /// Whether there is no validator.
    pub fn is_empty(&self) -> (r: bool)
        ensures
            r == (self.keys().len() == 0),
    {
        self.entries.len() == 0
    }
}

fn copy_opt(o: &Option<String>) -> (r: Option<String>)
    ensures
        r == *o,
{
    match o {
        Some(s) => Some(s.clone()),
        None => None,
    }
}

impl Clone for ValidatorTable {
    /// A table with the same names and the same definitions.
    fn clone(&self) -> (r: Self)
        ensures
            r.keys() == self.keys(),
            r.values() == self.values(),
    {
        proof {
            use_type_invariant(self);
        }
        let mut entries: Vec<ValidatorEntry> = Vec::new();
        let mut i: usize = 0;
        while i < self.entries.len()
            invariant
                i <= self.entries.len(),
                entries@ == self.entries@.take(i as int),
            decreases self.entries.len() - i,
        {
            let entry = &self.entries[i];
            let copy = ValidatorEntry {
                name: entry.name.clone(),
                config: ValidatorConfig {
                    container: entry.config.container.clone(),
                    script: entry.config.script.clone(),
                    exec_command: copy_opt(&entry.config.exec_command),
                },
            };
            assert(copy == self.entries@[i as int]);
            entries.push(copy);
            assert(entries@ == self.entries@.take(i + 1));
            i += 1;
        }
        assert(self.entries@.take(self.entries.len() as int) == self.entries@);
        ValidatorTable { entries }
    }
}

/// The first cause, if any, for which a definition is refused.
pub open spec fn invalid_reason(config: ValidatorConfig) -> Option<Seq<char>> {
    if config.container@.len() == 0 {
        Some("container cannot be empty"@)
    } else if config.script@.len() == 0 {
        Some("script path cannot be empty"@)
    } else {
        None
    }
}

impl ValidatorConfig {
    /// Checks the definition of the validator called `name`: its image
    /// reference and its script path must not be empty.
    pub fn validate(&self, name: &str) -> (r: Result<(), ValidatorError>)
        ensures
            match r {
                Ok(_) => invalid_reason(*self) is None,
                Err(e) => invalid_reason(*self) matches Some(reason) && e@
                    == (ErrorView::InvalidConfig { name: name@, reason }),
            },
    {
        if self.container.as_str().is_empty() {
            return Err(
                ValidatorError::InvalidConfig {
                    name: name.to_owned(),
                    reason: "container cannot be empty".to_owned(),
                },
            );
        }
        if self.script.as_str().is_empty() {
            return Err(
                ValidatorError::InvalidConfig {
                    name: name.to_owned(),
                    reason: "script path cannot be empty".to_owned(),
                },
            );
        }
        Ok(())
    }
}

impl Config {
    /// The definition of the validator called `name`, or the error that says
    /// that the configuration has none of that name.
    pub fn get_validator(&self, name: &str) -> (r: Result<&ValidatorConfig, ValidatorError>)
        ensures
            match r {
                Ok(config) => self.validators.lookup(name@) == Some(*config),
                Err(e) => self.validators.lookup(name@) is None && e@
                    == (ErrorView::UnknownValidator { name: name@ }),
            },
    {
        match self.validators.get(name) {
            Some(config) => Ok(config),
            None => Err(ValidatorError::UnknownValidator { name: name.to_owned() }),
        }
    }
}

impl Default for Config {
    /// No validators, no fixtures directory, fail-fast unset.
    fn default() -> (r: Self)
        ensures
            r.validators.keys().len() == 0,
            !r.fail_fast,
            r.fixtures_dir is None,
    {
        Config { validators: ValidatorTable::new(), fail_fast: false, fixtures_dir: None }
    }
}

} // verus!
