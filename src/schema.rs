//! Key descriptors and the schema registry that holds them.
use vstd::prelude::*;

use indexmap::IndexMap;

use crate::codec::ConfigValue;
use crate::error::{ConfigError, ErrorModel};
use crate::props::Properties;
use crate::text::{contains, views};
use crate::validators::Validator;

verus! {

#[verifier::external_type_specification]
#[verifier::external_body]
#[verifier::reject_recursive_types(K)]
#[verifier::reject_recursive_types(V)]
#[verifier::reject_recursive_types(S)]
pub struct ExIndexMap<K, V, S>(IndexMap<K, V, S>);

/// The entries of a name index, in insertion order.
pub uninterp spec fn index_entries(m: IndexMap<String, usize>) -> Seq<(Seq<char>, usize)>;

/// The position of the entry with key `k`, if there is one.
pub open spec fn entry_position(entries: Seq<(Seq<char>, usize)>, k: Seq<char>) -> Option<int> {
    if exists|i: int| 0 <= i < entries.len() && entries[i].0 == k {
        Some(choose|i: int| 0 <= i < entries.len() && entries[i].0 == k)
    } else {
        None
    }
}

/// Relies on `IndexMap::with_capacity`: a new map has no entries.
#[verifier::external_body]
fn index_with_capacity(n: usize) -> (r: IndexMap<String, usize>)
    ensures
        index_entries(r) == Seq::<(Seq<char>, usize)>::empty(),
{
    IndexMap::with_capacity(n)
}

/// Relies on `IndexMap::insert`: an equal key keeps its place, takes the new value
/// and the old value is returned; a new key is appended last and `None` is returned.
#[verifier::external_body]
fn index_insert(m: &mut IndexMap<String, usize>, key: String, value: usize) -> (r: Option<usize>)
    ensures
        match entry_position(index_entries(*old(m)), key@) {
            Some(i) => r == Some(index_entries(*old(m))[i].1) && index_entries(*final(m))
                == index_entries(*old(m)).update(i, (key@, value)),
            None => r is None && index_entries(*final(m)) == index_entries(*old(m)).push(
                (key@, value),
            ),
        },
{
    m.insert(key, value)
}

/// Relies on `IndexMap::get`: the value of the entry whose key equals `key`.
#[verifier::external_body]
fn index_get(m: &IndexMap<String, usize>, key: &str) -> (r: Option<usize>)
    ensures
        match entry_position(index_entries(*m), key@) {
            Some(i) => r == Some(index_entries(*m)[i].1),
            None => r is None,
        },
{
    m.get(key).copied()
}

/// How prominently a key is documented.
#[derive(Clone, Copy, Debug, PartialEq, Eq, Structural)]
pub enum Importance {
    HIGH,
    MEDIUM,
    LOW,
}

/// The metadata of one configuration field. The default is held as the canonical
/// string of its value, so that descriptors of fields of any type share one type.
#[derive(Clone, Debug)]
pub struct ConfigKey<V> {
    pub name: String,
    pub documentation: Option<String>,
    pub default_value: Option<String>,
    pub validator: Option<V>,
    pub importance: Option<Importance>,
    pub group: Option<String>,
    pub internal_config: bool,
}

/// The read-only view of a key descriptor that documentation and lookups use.
pub trait ConfigKeyTrait<V> {
    fn name(&self) -> &String;

    fn documentation(&self) -> Option<&String>;

    /// The canonical string of the default value.
    fn default_value(&self) -> Option<&String>;

    fn validator(&self) -> Option<&V>;

    fn importance(&self) -> Option<Importance>;

    fn group(&self) -> Option<&String>;

    fn internal_config(&self) -> bool;
}

impl<V> ConfigKeyTrait<V> for ConfigKey<V> {
    fn name(&self) -> (r: &String)
        ensures
            *r == self.name,
    {
        &self.name
    }

    fn documentation(&self) -> (r: Option<&String>)
        ensures
            r is None <==> self.documentation is None,
            r matches Some(x) ==> self.documentation == Some(*x),
    {
        self.documentation.as_ref()
    }

    fn default_value(&self) -> (r: Option<&String>)
        ensures
            r is None <==> self.default_value is None,
            r matches Some(x) ==> self.default_value == Some(*x),
    {
        self.default_value.as_ref()
    }

    fn validator(&self) -> (r: Option<&V>)
        ensures
            r is None <==> self.validator is None,
            r matches Some(x) ==> self.validator == Some(*x),
    {
        self.validator.as_ref()
    }

    fn importance(&self) -> (r: Option<Importance>)
        ensures
            r == self.importance,
    {
        self.importance
    }

    fn group(&self) -> (r: Option<&String>)
        ensures
            r is None <==> self.group is None,
            r matches Some(x) ==> self.group == Some(*x),
    {
        self.group.as_ref()
    }

    fn internal_config(&self) -> (r: bool)
        ensures
            r == self.internal_config,
    {
        self.internal_config
    }
}

impl<V> ConfigKey<V> {
    /// A descriptor of the key `name` with nothing else set.
    pub fn new(name: &str) -> (r: Self)
        ensures
            r.name@ == name@,
            r.documentation is None,
            r.default_value is None,
            r.validator is None,
            r.importance is None,
            r.group is None,
            !r.internal_config,
    {
        ConfigKey {
            name: name.to_owned(),
            documentation: None,
            default_value: None,
            validator: None,
            importance: None,
            group: None,
            internal_config: false,
        }
    }

    /// Sets the default to `value`, held as its canonical string.
    pub fn with_default<T: ConfigValue>(self, value: &T) -> (r: Self)
        ensures
            r == (ConfigKey { default_value: r.default_value, ..self }),
            r.default_value matches Some(d) && d@ == T::config_text(value.deep_view()),
    {
        ConfigKey { default_value: Some(value.to_config_string()), ..self }
    }

    /// Sets the default to the untyped literal `text`, read when the key is resolved.
    pub fn with_default_text(self, text: &str) -> (r: Self)
        ensures
            r == (ConfigKey { default_value: r.default_value, ..self }),
            r.default_value matches Some(d) && d@ == text@,
    {
        ConfigKey { default_value: Some(text.to_owned()), ..self }
    }

    pub fn with_validator(self, validator: V) -> (r: Self)
        ensures
            r == (ConfigKey { validator: Some(validator), ..self }),
    {
        ConfigKey { validator: Some(validator), ..self }
    }

    pub fn with_documentation(self, documentation: &str) -> (r: Self)
        ensures
            r == (ConfigKey { documentation: r.documentation, ..self }),
            r.documentation matches Some(d) && d@ == documentation@,
    {
        ConfigKey { documentation: Some(documentation.to_owned()), ..self }
    }

    pub fn with_importance(self, importance: Importance) -> (r: Self)
        ensures
            r == (ConfigKey { importance: Some(importance), ..self }),
    {
        ConfigKey { importance: Some(importance), ..self }
    }

    pub fn with_group(self, group: &str) -> (r: Self)
        ensures
            r == (ConfigKey { group: r.group, ..self }),
            r.group matches Some(g) && g@ == group@,
    {
        ConfigKey { group: Some(group.to_owned()), ..self }
    }

    /// Marks the key as internal: left out of public documentation.
    pub fn internal(self) -> (r: Self)
        ensures
            r == (ConfigKey { internal_config: true, ..self }),
    {
        ConfigKey { internal_config: true, ..self }
    }
}

/// A configuration type: a registry built once, and resolution of raw properties
/// into a value of the type.
pub trait FromConfigDef<V: Validator>: Sized {
    fn from_props(props: &Properties) -> Result<Self, ConfigError>;

    fn config_def() -> Result<&'static ConfigDef<V>, ConfigError>;
}

/// The names of the keys, in order.
pub open spec fn key_names<V>(keys: Seq<ConfigKey<V>>) -> Seq<Seq<char>> {
    keys.map_values(|k: ConfigKey<V>| k.name@)
}

/// A position of a key named `name`, where there is one.
pub open spec fn key_position<V>(keys: Seq<ConfigKey<V>>, name: Seq<char>) -> int {
    choose|i: int| 0 <= i < keys.len() && keys[i].name@ == name
}

/// The key named `name`, if there is one.
pub open spec fn key_named<V>(keys: Seq<ConfigKey<V>>, name: Seq<char>) -> Option<ConfigKey<V>> {
    if exists|i: int| 0 <= i < keys.len() && keys[i].name@ == name {
        Some(keys[key_position(keys, name)])
    } else {
        None
    }
}

/// No two keys share a name.
pub open spec fn names_unique<V>(keys: Seq<ConfigKey<V>>) -> bool {
    forall|i: int, j: int|
        0 <= i < j < keys.len() ==> #[trigger] keys[i].name@ != #[trigger] keys[j].name@
}

/// The first name, in order, that an earlier key already has.
pub open spec fn first_repeat(names: Seq<Seq<char>>) -> Option<Seq<char>>
    decreases names.len(),
{
    if names.len() == 0 {
        None
    } else {
        match first_repeat(names.drop_last()) {
            Some(n) => Some(n),
            None => if names.drop_last().contains(names.last()) {
                Some(names.last())
            } else {
                None
            },
        }
    }
}

pub open spec fn defined_twice_message(name: Seq<char>) -> Seq<char> {
    "Configuration key '"@ + name + "' is defined twice."@
}

/// What the key's validator says of its own default, if it has both.
pub open spec fn default_check<V: Validator>(k: ConfigKey<V>) -> Result<(), ErrorModel> {
    match (k.default_value, k.validator) {
        (Some(d), Some(v)) => v.outcome(k.name@, d@),
        _ => Ok(()),
    }
}

/// The error of the first key, in order, whose default its validator rejects.
pub open spec fn default_failure<V: Validator>(keys: Seq<ConfigKey<V>>) -> Option<ErrorModel>
    decreases keys.len(),
{
    if keys.len() == 0 {
        None
    } else {
        match default_check(keys[0]) {
            Err(e) => Some(e),
            Ok(_) => default_failure(keys.drop_first()),
        }
    }
}

/// The groups of the keys, each once, in the order first seen.
pub open spec fn group_order<V>(keys: Seq<ConfigKey<V>>) -> Seq<Seq<char>>
    decreases keys.len(),
{
    if keys.len() == 0 {
        Seq::empty()
    } else {
        let g = group_order(keys.drop_last());
        match keys.last().group {
            Some(x) => if g.contains(x@) {
                g
            } else {
                g.push(x@)
            },
            None => g,
        }
    }
}

/// Whether a registry can be built from `keys`: a repeated name is an error, then
/// a default that its own validator rejects.
pub open spec fn build_outcome<V: Validator>(keys: Seq<ConfigKey<V>>) -> Result<(), ErrorModel> {
    match first_repeat(key_names(keys)) {
        Some(n) => Err(ErrorModel::ValidationFailed { name: n, message: defined_twice_message(n) }),
        None => match default_failure(keys) {
            Some(e) => Err(e),
            None => Ok(()),
        },
    }
}

/// The schema registry: key descriptors in declaration order, an index from name
/// to position, and the groups in first-seen order.
pub struct ConfigDef<V> {
    config_keys: Vec<ConfigKey<V>>,
    index: IndexMap<String, usize>,
    groups: Vec<String>,
}

impl<V> ConfigDef<V> {
    /// The key descriptors, in declaration order.
    pub closed spec fn keys(&self) -> Seq<ConfigKey<V>> {
        self.config_keys@
    }

    /// The groups, each once, in first-seen order.
    pub closed spec fn group_names(&self) -> Seq<Seq<char>> {
        views(self.groups@)
    }

    /// Names are unique, the index maps each name to its position, and the
    /// groups are those of the keys.
    pub closed spec fn wf(&self) -> bool {
        let entries = index_entries(self.index);
        &&& names_unique(self.config_keys@)
        &&& entries.len() == self.config_keys@.len()
        &&& forall|i: int|
            0 <= i < entries.len() ==> #[trigger] entries[i] == (self.config_keys@[i].name@, i as usize)
        &&& views(self.groups@) == group_order(self.config_keys@)
    }

    #[verifier::type_invariant]
    spec fn well_formed(&self) -> bool {
        self.wf()
    }

    /// The key descriptors, in declaration order.
    pub fn config_keys(&self) -> (r: &Vec<ConfigKey<V>>)
        ensures
            r@ == self.keys(),
    {
        &self.config_keys
    }

    /// The groups, each once, in first-seen order.
    pub fn groups(&self) -> (r: &Vec<String>)
        ensures
            views(r@) == self.group_names(),
    {
        &self.groups
    }

    /// Gives the key descriptors back, in declaration order.
    pub fn into_keys(self) -> (r: Vec<ConfigKey<V>>)
        ensures
            r@ == self.keys(),
    {
        self.config_keys
    }

    /// Looks up the descriptor of the key `name`.
    pub fn find_key(&self, name: &str) -> (r: Option<&ConfigKey<V>>)
        ensures
            match r {
                Some(k) => key_named(self.keys(), name@) == Some(*k),
                None => key_named(self.keys(), name@) is None,
            },
    {
        proof {
            use_type_invariant(self);
        }
        let ghost entries = index_entries(self.index);
        let n = self.config_keys.len();
        match index_get(&self.index, name) {
            Some(i) => {
                proof {
                    let p = entry_position(entries, name@)->Some_0;
                    assert(entries[p] == (self.config_keys@[p].name@, p as usize));
                    assert(0 <= p < self.config_keys@.len() && self.config_keys@[p].name@
                        == name@);
                    let q = choose|q: int|
                        0 <= q < self.config_keys@.len() && self.config_keys@[q].name@ == name@;
                    if q < p {
                        assert(self.config_keys@[q].name@ != self.config_keys@[p].name@);
                    }
                    if p < q {
                        assert(self.config_keys@[p].name@ != self.config_keys@[q].name@);
                    }
                    assert(q == p);
                }
                Some(&self.config_keys[i])
            },
            None => {
                proof {
                    if exists|q: int|
                        0 <= q < self.config_keys@.len() && self.config_keys@[q].name@ == name@ {
                        let q = choose|q: int|
                            0 <= q < self.config_keys@.len() && self.config_keys@[q].name@
                                == name@;
                        assert(entries[q].0 == name@);
                    }
                }
                None
            },
        }
    }
}

/// A repeat found in a prefix is the first repeat of the whole.
proof fn lemma_first_repeat_prefix(names: Seq<Seq<char>>, k: int)
    requires
        0 <= k <= names.len(),
        first_repeat(names.take(k)) is Some,
    ensures
        first_repeat(names) == first_repeat(names.take(k)),
    decreases names.len(),
{
    if names.len() == k {
        assert(names.take(k) =~= names);
    } else {
        assert(names.drop_last().take(k) =~= names.take(k));
        lemma_first_repeat_prefix(names.drop_last(), k);
    }
}

/// Without a repeat, all names differ.
pub proof fn lemma_no_repeat_unique(names: Seq<Seq<char>>)
    requires
        first_repeat(names) is None,
    ensures
        forall|a: int, b: int| 0 <= a < b < names.len() ==> names[a] != names[b],
    decreases names.len(),
{
    if names.len() > 0 {
        let init = names.drop_last();
        lemma_no_repeat_unique(init);
        assert forall|a: int, b: int| 0 <= a < b < names.len() implies names[a] != names[b] by {
            if b == names.len() - 1 {
                assert(init[a] == names[a]);
                assert(!init.contains(names.last()));
            } else {
                assert(init[a] == names[a] && init[b] == names[b]);
            }
        }
    }
}

/// Some name occurs twice exactly when there is a first repeat, and the first
/// repeat is a name that occurs twice.
proof fn lemma_first_repeat_occurs_twice(names: Seq<Seq<char>>)
    ensures
        first_repeat(names) is Some <==> exists|a: int, b: int|
            0 <= a < b < names.len() && names[a] == names[b],
        first_repeat(names) matches Some(n) ==> exists|a: int, b: int|
            0 <= a < b < names.len() && names[a] == n && names[b] == n,
    decreases names.len(),
{
    if first_repeat(names) is None {
        lemma_no_repeat_unique(names);
    }
    if names.len() > 0 {
        let init = names.drop_last();
        lemma_first_repeat_occurs_twice(init);
        match first_repeat(init) {
            Some(n) => {
                let (a, b) = choose|a: int, b: int|
                    0 <= a < b < init.len() && init[a] == n && init[b] == n;
                assert(names[a] == n && names[b] == n);
            },
            None => {
                if init.contains(names.last()) {
                    let a = choose|a: int| 0 <= a < init.len() && init[a] == names.last();
                    assert(names[a] == names.last());
                    assert(names[names.len() - 1] == names.last());
                }
            },
        }
    }
}

impl<V: Validator> ConfigDef<V> {
    /// Builds a registry from key descriptors in declaration order. A name used
    /// twice is a `ValidationFailed` error naming it; so is a default that its own
    /// validator rejects, checked here once and for all.
    pub fn try_from(keys: Vec<ConfigKey<V>>) -> (r: Result<Self, ConfigError>)
        ensures
            match r {
                Ok(d) => build_outcome(keys@) is Ok && d.wf() && d.keys() == keys@
                    && d.group_names() == group_order(keys@),
                Err(e) => build_outcome(keys@) == Err::<(), ErrorModel>(e@),
            },
    {
        let ghost names = key_names(keys@);
        let mut index = index_with_capacity(keys.len());
        let mut i: usize = 0;
        while i < keys.len()
            invariant
                i <= keys.len(),
                names == key_names(keys@),
                first_repeat(names.take(i as int)) is None,
                index_entries(index).len() == i,
                forall|j: int|
                    0 <= j < i ==> #[trigger] index_entries(index)[j] == (
                        keys@[j].name@,
                        j as usize,
                    ),
            decreases keys.len() - i,
        {
            let name = keys[i].name.clone();
            let ghost entries = index_entries(index);
            proof {
                assert(names.take(i + 1).drop_last() =~= names.take(i as int));
                assert(names.take(i + 1).last() == name@);
            }
            match index_insert(&mut index, name, i) {
                Some(_) => {
                    proof {
                        let p = entry_position(entries, name@)->Some_0;
                        assert(names.take(i as int)[p] == name@);
                        assert(names.take(i as int).contains(name@));
                        lemma_first_repeat_prefix(names, i + 1);
                    }
                    let mut message = String::from_str("Configuration key '");
                    message.append(keys[i].name.as_str());
                    message.append("' is defined twice.");
                    return Err(ConfigError::ValidationFailed { name: keys[i].name.clone(), message });
                },
                None => {
                    proof {
                        if names.take(i as int).contains(name@) {
                            let p = choose|p: int|
                                0 <= p < names.take(i as int).len() && names.take(i as int)[p]
                                    == name@;
                            assert(entries[p].0 == name@);
                        }
                    }
                },
            }
            i = i + 1;
        }
        proof {
            assert(names.take(keys@.len() as int) =~= names);
            lemma_no_repeat_unique(names);
            assert forall|a: int, b: int|
                0 <= a < b < keys@.len() implies #[trigger] keys@[a].name@
                != #[trigger] keys@[b].name@ by {
                assert(names[a] == keys@[a].name@ && names[b] == keys@[b].name@);
            }
        }
        let mut j: usize = 0;
        proof {
            assert(keys@.skip(0) =~= keys@);
        }
        while j < keys.len()
            invariant
                j <= keys.len(),
                default_failure(keys@) == default_failure(keys@.skip(j as int)),
                first_repeat(key_names(keys@)) is None,
            decreases keys.len() - j,
        {
            proof {
                assert(keys@.skip(j as int)[0] == keys@[j as int]);
                assert(keys@.skip(j as int).drop_first() =~= keys@.skip(j + 1));
            }
            let k = &keys[j];
            if let Some(d) = &k.default_value {
                if let Some(v) = &k.validator {
                    match v.validate(k.name.as_str(), d.as_str()) {
                        Err(e) => {
                            return Err(e);
                        },
                        Ok(()) => {},
                    }
                }
            }
            j = j + 1;
        }
        proof {
            assert(keys@.skip(keys@.len() as int) =~= Seq::<ConfigKey<V>>::empty());
        }
        let ghost entries = index_entries(index);
        let mut groups: Vec<String> = Vec::new();
        let mut g: usize = 0;
        while g < keys.len()
            invariant
                g <= keys.len(),
                views(groups@) == group_order(keys@.take(g as int)),
                build_outcome(keys@) is Ok,
            decreases keys.len() - g,
        {
            proof {
                assert(keys@.take(g + 1).drop_last() =~= keys@.take(g as int));
                assert(keys@.take(g + 1).last() == keys@[g as int]);
            }
            if let Some(x) = &keys[g].group {
                if !contains(&groups, x.as_str()) {
                    let ghost before = groups@;
                    let c = x.clone();
                    groups.push(c);
                    proof {
                        assert(views(groups@) =~= views(before).push(c@));
                    }
                }
            }
            g = g + 1;
        }
        proof {
            assert(keys@.take(keys@.len() as int) =~= keys@);
        }
        Ok(ConfigDef { config_keys: keys, index, groups })
    }
}

proof fn lemma_no_default_failure<V: Validator>(keys: Seq<ConfigKey<V>>)
    requires
        default_failure(keys) is None,
    ensures
        forall|i: int| 0 <= i < keys.len() ==> #[trigger] default_check(keys[i]) is Ok,
    decreases keys.len(),
{
    if keys.len() > 0 {
        lemma_no_default_failure(keys.drop_first());
        assert forall|i: int| 0 <= i < keys.len() implies #[trigger] default_check(keys[i]) is Ok by {
            if i > 0 {
                assert(keys[i] == keys.drop_first()[i - 1]);
            }
        }
    }
}

/// Defaults are checked when the registry is built: in a registry that builds,
/// every key that has both a default and a validator has a default that the
/// validator accepts.
pub proof fn built_defaults_pass<V: Validator>(keys: Seq<ConfigKey<V>>)
    requires
        build_outcome(keys) is Ok,
    ensures
        forall|i: int| 0 <= i < keys.len() ==> #[trigger] default_check(keys[i]) is Ok,
{
    lemma_no_default_failure(keys);
}

/// A descriptor list in which two descriptors share a name never builds, whatever
/// the descriptors hold: the error is a "defined twice" `ValidationFailed` naming a
/// name that two descriptors share, and it names the name of `keys[i]` and
/// `keys[j]` when no other name is shared.
pub proof fn duplicate_names_rejected<V: Validator>(keys: Seq<ConfigKey<V>>, i: int, j: int)
    requires
        0 <= i < j < keys.len(),
        keys[i].name@ == keys[j].name@,
    ensures
        build_outcome(keys) matches Err(ErrorModel::ValidationFailed { name, message }) && message
            == defined_twice_message(name) && exists|a: int, b: int|
            0 <= a < b < keys.len() && keys[a].name@ == name && keys[b].name@ == name,
        (forall|a: int, b: int|
            0 <= a < b < keys.len() && #[trigger] keys[a].name@ == #[trigger] keys[b].name@
                ==> keys[a].name@ == keys[i].name@) ==> (build_outcome(keys) matches Err(e)
            && e.key() == keys[i].name@),
{
    let names = key_names(keys);
    lemma_first_repeat_occurs_twice(names);
    assert(names[i] == names[j]);
    let n = first_repeat(names)->Some_0;
    let (a, b) = choose|a: int, b: int| 0 <= a < b < names.len() && names[a] == n && names[b] == n;
    assert(keys[a].name@ == n && keys[b].name@ == n);
}

/// The concatenation of the key lists of `defs`, in order.
pub open spec fn merged_keys<V>(defs: Seq<Seq<ConfigKey<V>>>) -> Seq<ConfigKey<V>>
    decreases defs.len(),
{
    if defs.len() == 0 {
        Seq::empty()
    } else {
        merged_keys(defs.drop_last()) + defs.last()
    }
}

/// The key lists of a sequence of registries.
pub open spec fn key_lists<V>(defs: Seq<ConfigDef<V>>) -> Seq<Seq<ConfigKey<V>>> {
    defs.map_values(|d: ConfigDef<V>| d.keys())
}

/// Each part's keys stand together, in order, inside the merged keys.
pub proof fn lemma_merged_segment<V>(parts: Seq<Seq<ConfigKey<V>>>, p: int) -> (off: int)
    requires
        0 <= p < parts.len(),
    ensures
        0 <= off && off + parts[p].len() <= merged_keys(parts).len(),
        forall|i: int| 0 <= i < parts[p].len() ==> merged_keys(parts)[off + i] == parts[p][i],
    decreases parts.len(),
{
    let init = parts.drop_last();
    if p == parts.len() - 1 {
        merged_keys(init).len() as int
    } else {
        let off = lemma_merged_segment(init, p);
        assert(init[p] == parts[p]);
        off
    }
}

impl<V: Validator> ConfigDef<V> {
    /// Merges registries into one: their key descriptors in order, through the same
    /// checks as `try_from`, so that a name in two of them is an error.
    pub fn merge(defs: Vec<ConfigDef<V>>) -> (r: Result<Self, ConfigError>)
        ensures
            match r {
                Ok(d) => build_outcome(merged_keys(key_lists(defs@))) is Ok && d.wf() && d.keys()
                    == merged_keys(key_lists(defs@)),
                Err(e) => build_outcome(merged_keys(key_lists(defs@))) == Err::<(), ErrorModel>(
                    e@,
                ),
            },
    {
        let ghost lists = key_lists(defs@);
        let total = defs.len();
        let mut rest = defs;
        let mut all: Vec<ConfigKey<V>> = Vec::new();
        let mut done: usize = 0;
        proof {
            assert(lists.take(0) =~= Seq::<Seq<ConfigKey<V>>>::empty());
            assert(rest@ =~= defs@.skip(0));
        }
        while rest.len() > 0
            invariant
                lists == key_lists(defs@),
                done + rest@.len() == defs@.len(),
                total == defs@.len(),
                rest@ == defs@.skip(done as int),
                all@ == merged_keys(lists.take(done as int)),
            decreases rest@.len(),
        {
            let d = rest.remove(0);
            let mut ks = d.into_keys();
            proof {
                assert(lists.take(done + 1).drop_last() =~= lists.take(done as int));
                assert(lists.take(done + 1).last() == ks@);
            }
            all.append(&mut ks);
            done = done + 1;
            proof {
                assert(rest@ =~= defs@.skip(done as int));
            }
        }
        proof {
            assert(lists.take(defs@.len() as int) =~= lists);
        }
        Self::try_from(all)
    }
}

} // verus!
