//! Step configuration values: a small, typed stand-in for the JSON objects
//! that step definitions carry. Anything the engine does not read is kept as
//! raw text and handed through untouched.

use vstd::prelude::*;

verus! {

#[derive(Debug, Clone)]
pub enum ConfigValue {
    Bool(bool),
    Str(String),
    /// A list of plain strings, as module run arguments are given.
    StrList(Vec<String>),
    /// A list of id/value pairs, as module run inputs are given.
    IdValuePairs(Vec<(String, String)>),
    /// Raw JSON text carried through without interpretation.
    Text(String),
}

/// The ghost shape of a configuration value.
pub enum ConfigValueModel {
    Bool(bool),
    Str(Seq<char>),
    StrList(Seq<Seq<char>>),
    IdValuePairs(Seq<(Seq<char>, Seq<char>)>),
    Text(Seq<char>),
}

impl View for ConfigValue {
    type V = ConfigValueModel;

    open spec fn view(&self) -> ConfigValueModel {
        match self {
            ConfigValue::Bool(b) => ConfigValueModel::Bool(*b),
            ConfigValue::Str(s) => ConfigValueModel::Str(s@),
            ConfigValue::StrList(l) => ConfigValueModel::StrList(l.deep_view()),
            ConfigValue::IdValuePairs(l) => ConfigValueModel::IdValuePairs(l.deep_view()),
            ConfigValue::Text(t) => ConfigValueModel::Text(t@),
        }
    }
}

impl DeepView for ConfigValue {
    type V = ConfigValueModel;

    open spec fn deep_view(&self) -> ConfigValueModel {
        self.view()
    }
}

/// One step's configuration: keys with their values, first entry winning on lookup.
pub type StepConfig = Vec<(String, ConfigValue)>;

/// The value under the first matching key, if any.
pub open spec fn spec_lookup(
    m: Seq<(Seq<char>, ConfigValueModel)>,
    k: Seq<char>,
) -> Option<ConfigValueModel>
    decreases m.len(),
{
    if m.len() == 0 {
        None
    } else if m[0].0 == k {
        Some(m[0].1)
    } else {
        spec_lookup(m.drop_first(), k)
    }
}

proof fn lemma_lookup_skip(m: Seq<(Seq<char>, ConfigValueModel)>, k: Seq<char>, i: int)
    requires
        0 <= i <= m.len(),
        forall|j: int| 0 <= j < i ==> m[j].0 != k,
    ensures
        spec_lookup(m, k) == spec_lookup(m.subrange(i, m.len() as int), k),
    decreases i,
{
    if i == 0 {
        assert(m.subrange(0, m.len() as int) =~= m);
    } else {
        assert(m.len() > 0);
        assert(m[0].0 != k);
        assert(m.drop_first() =~= m.subrange(1, m.len() as int));
        assert forall|j: int| 0 <= j < i - 1 implies m.drop_first()[j].0 != k by {
            assert(m.drop_first()[j] == m[j + 1]);
        }
        lemma_lookup_skip(m.drop_first(), k, i - 1);
        assert(m.drop_first().subrange(i - 1, m.drop_first().len() as int) =~= m.subrange(
            i,
            m.len() as int,
        ));
    }
}

/// Finds the value stored under `key`, scanning from the front.
pub fn config_get<'a>(config: &'a StepConfig, key: &str) -> (r: Option<&'a ConfigValue>)
    ensures
        match r {
            Some(v) => spec_lookup(config.deep_view(), key@) == Some(v@),
            None => spec_lookup(config.deep_view(), key@) is None,
        },
{
    let k = String::from_str(key);
    let ghost m = config.deep_view();
    let mut i: usize = 0;
    while i < config.len()
        invariant
            0 <= i <= config.len(),
            m == config.deep_view(),
            m.len() == config.len(),
            k@ == key@,
            forall|j: int| 0 <= j < i ==> m[j].0 != key@,
        decreases config.len() - i,
    {
        proof {
            assert(m[i as int] == (config@[i as int].0@, config@[i as int].1.deep_view()));
        }
        if config[i].0.eq(&k) {
            proof {
                lemma_lookup_skip(m, key@, i as int);
                let tail = m.subrange(i as int, m.len() as int);
                assert(tail[0] == m[i as int]);
            }
            return Some(&config[i].1);
        }
        i = i + 1;
    }
    proof {
        lemma_lookup_skip(m, key@, i as int);
        assert(m.subrange(i as int, m.len() as int).len() == 0);
    }
    None
}

/// The string under `key`, when the entry holds one.
pub fn config_get_str<'a>(config: &'a StepConfig, key: &str) -> (r: Option<&'a String>)
    ensures
        match r {
            Some(s) => spec_lookup(config.deep_view(), key@) == Some(ConfigValueModel::Str(s@)),
            None => !(spec_lookup(config.deep_view(), key@) matches Some(
                ConfigValueModel::Str(_),
            )),
        },
{
    match config_get(config, key) {
        Some(ConfigValue::Str(s)) => Some(s),
        _ => None,
    }
}

/// The boolean under `key`, when the entry holds one.
pub fn config_get_bool(config: &StepConfig, key: &str) -> (r: Option<bool>)
    ensures
        match r {
            Some(b) => spec_lookup(config.deep_view(), key@) == Some(ConfigValueModel::Bool(b)),
            None => !(spec_lookup(config.deep_view(), key@) matches Some(
                ConfigValueModel::Bool(_),
            )),
        },
{
    match config_get(config, key) {
        Some(ConfigValue::Bool(b)) => Some(*b),
        _ => None,
    }
}

} // verus!
