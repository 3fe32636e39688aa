//! The parameter store: named parameters, each with a description, a current
//! value and the ordered list of values it may take.
use vstd::prelude::*;

verus! {

/// Errors of the parameter store.
#[derive(Debug, Clone, Copy, PartialEq, Eq, Structural)]
pub enum ConfigError {
    /// The store holds no parameter.
    EmptyParameterList,
    /// No parameter has the name asked for.
    ParameterNotFound,
    /// The value is not among the parameter's legal values.
    ValueNotInDomain,
    /// A value that must be a number is not one.
    NotANumber,
    /// The index is past the end of the parameter's legal values, or does not
    /// fit in the 8 bits that carry it.
    IndexOutOfRange,
}

/// `i` is the first position at which `s` holds `x`.
pub open spec fn is_first_index<T>(s: Seq<T>, x: T, i: int) -> bool {
    0 <= i < s.len() && s[i] == x && forall|j: int| 0 <= j < i ==> s[j] != x
}

/// The first position of `x` in `s`, or -1 where `s` does not hold it.
pub open spec fn position_of<T>(s: Seq<T>, x: T) -> int {
    if exists|i: int| is_first_index(s, x, i) {
        choose|i: int| is_first_index(s, x, i)
    } else {
        -1
    }
}

pub(crate) proof fn lemma_position_of<T>(s: Seq<T>, x: T, i: int)
    requires
        is_first_index(s, x, i),
    ensures
        position_of(s, x) == i,
{
    let k = choose|k: int| is_first_index(s, x, k);
    assert(is_first_index(s, x, k));
    if k < i {
        assert(s[k] != x);
    } else if i < k {
        assert(s[i] != x);
    }
}

proof fn lemma_position_absent<T>(s: Seq<T>, x: T)
    requires
        forall|j: int| 0 <= j < s.len() ==> s[j] != x,
    ensures
        position_of(s, x) == -1,
{
}

/// The text of each string.
pub open spec fn texts(v: Seq<String>) -> Seq<Seq<char>> {
    v.map_values(|s: String| s@)
}

/// The position of `key` among the strings of `v`, found by a scan from the front.
pub fn find_string(v: &Vec<String>, key: &str) -> (r: Option<usize>)
    ensures
        match r {
            Some(i) => position_of(texts(v@), key@) == i as int,
            None => position_of(texts(v@), key@) == -1,
        },
{
    let k = key.to_owned();
    let mut i: usize = 0;
    while i < v.len()
        invariant
            i <= v@.len(),
            k@ == key@,
            forall|j: int| 0 <= j < i ==> texts(v@)[j] != key@,
        decreases v@.len() - i,
    {
        if v[i] == k {
            proof {
                assert(texts(v@)[i as int] == key@);
                lemma_position_of(texts(v@), key@, i as int);
            }
            return Some(i);
        }
        i = i + 1;
    }
    proof {
        lemma_position_absent(texts(v@), key@);
    }
    None
}

/// A copy of a list of strings.
pub fn clone_strings(v: &Vec<String>) -> (r: Vec<String>)
    ensures
        r@ == v@,
{
    let mut r: Vec<String> = Vec::new();
    let mut i: usize = 0;
    while i < v.len()
        invariant
            i <= v@.len(),
            r@ == v@.subrange(0, i as int),
        decreases v@.len() - i,
    {
        r.push(v[i].clone());
        i = i + 1;
        assert(r@ =~= v@.subrange(0, i as int));
    }
    assert(v@.subrange(0, v@.len() as int) =~= v@);
    r
}

/// A parameter as plain values.
pub ghost struct ParameterView {
    pub description: Seq<char>,
    pub value: Seq<char>,
    pub possible_values: Seq<Seq<char>>,
}

impl ParameterView {
    pub open spec fn with_value(self, value: Seq<char>) -> ParameterView {
        ParameterView { value, ..self }
    }
}

/// One parameter of the store.
#[derive(Debug, Clone)]
pub struct Parameter {
    description: String,
    value: String,
    possible_values: Vec<String>,
}

impl View for Parameter {
    type V = ParameterView;

    closed spec fn view(&self) -> ParameterView {
        ParameterView {
            description: self.description@,
            value: self.value@,
            possible_values: texts(self.possible_values@),
        }
    }
}

impl Parameter {
    pub fn new(description: String, value: String, possible_values: Vec<String>) -> (r: Parameter)
        ensures
            r@ == (ParameterView {
                description: description@,
                value: value@,
                possible_values: texts(possible_values@),
            }),
    {
        Parameter { description, value, possible_values }
    }

    /// The description, as a menu shows it.
    pub fn get_description(&self) -> (r: String)
        ensures
            r@ == self@.description,
    {
        self.description.clone()
    }

    pub fn get_value(&self) -> (r: String)
        ensures
            r@ == self@.value,
    {
        self.value.clone()
    }

    /// Sets the current value; only a legal value is taken.
    pub fn set_value(&mut self, value: String) -> (r: Result<(), ConfigError>)
        ensures
            if old(self)@.possible_values.contains(value@) {
                r is Ok && final(self)@ == old(self)@.with_value(value@)
            } else {
                r == Err::<(), ConfigError>(ConfigError::ValueNotInDomain) && final(self)@
                    == old(self)@
            },
    {
        match find_string(&self.possible_values, value.as_str()) {
            Some(i) => {
                proof {
                    assert(texts(self.possible_values@)[i as int] == value@);
                }
                self.value = value;
                Ok(())
            },
            None => {
                proof {
                    if self@.possible_values.contains(value@) {
                        let j = choose|j: int|
                            0 <= j < self@.possible_values.len() && self@.possible_values[j]
                                == value@;
                        lemma_first_exists(self@.possible_values, value@, j);
                    }
                }
                Err(ConfigError::ValueNotInDomain)
            },
        }
    }

    pub fn get_possible_values(&self) -> (r: Vec<String>)
        ensures
            texts(r@) == self@.possible_values,
    {
        clone_strings(&self.possible_values)
    }
}

/// The store as plain values: names in the order of insertion, and the
/// parameter under each name at the same position.
pub ghost struct ConfigView {
    pub names: Seq<Seq<char>>,
    pub params: Seq<ParameterView>,
}

impl ConfigView {
    /// One parameter per name, and no name twice.
    pub open spec fn wf(self) -> bool {
        &&& self.names.len() == self.params.len()
        &&& forall|i: int, j: int|
            0 <= i < j < self.names.len() ==> self.names[i] != self.names[j]
    }

    /// Where `key` stands, or -1.
    pub open spec fn slot(self, key: Seq<char>) -> int {
        position_of(self.names, key)
    }

    /// The store with the parameter at `i` set to `value`.
    pub open spec fn set_value_at(self, i: int, value: Seq<char>) -> ConfigView {
        ConfigView { names: self.names, params: self.params.update(i, self.params[i].with_value(value)) }
    }

    /// Setting `key` to its legal value number `index`, where both exist;
    /// otherwise the store as it is.
    pub open spec fn set_by_index(self, key: Seq<char>, index: int) -> ConfigView {
        let i = self.slot(key);
        if 0 <= i && 0 <= index < self.params[i].possible_values.len() {
            self.set_value_at(i, self.params[i].possible_values[index])
        } else {
            self
        }
    }

    /// The position of `key`'s current value among its legal values, as an
    /// 8-bit index.
    pub open spec fn value_index(self, key: Seq<char>) -> Result<u8, ConfigError> {
        let i = self.slot(key);
        let k = position_of(self.params[i].possible_values, self.params[i].value);
        if i < 0 {
            Err(ConfigError::ParameterNotFound)
        } else if k < 0 {
            Err(ConfigError::ValueNotInDomain)
        } else if k > 255 {
            Err(ConfigError::IndexOutOfRange)
        } else {
            Ok(k as u8)
        }
    }

    /// Whether `set_by_index` finds both the name and the index.
    pub open spec fn index_in_range(self, key: Seq<char>, index: int) -> bool {
        let i = self.slot(key);
        0 <= i && 0 <= index < self.params[i].possible_values.len()
    }
}

/// The parameter store.
#[derive(Debug, Clone)]
pub struct DeviceConfig {
    names: Vec<String>,
    parameters: Vec<Parameter>,
}

impl View for DeviceConfig {
    type V = ConfigView;

    closed spec fn view(&self) -> ConfigView {
        ConfigView {
            names: texts(self.names@),
            params: self.parameters@.map_values(|p: Parameter| p@),
        }
    }
}

impl DeviceConfig {
    /// An empty store.
    pub fn new() -> (r: DeviceConfig)
        ensures
            r@.names.len() == 0,
            r@.wf(),
    {
        DeviceConfig { names: Vec::new(), parameters: Vec::new() }
    }

    /// Puts `parameter` under `name`, in place of any parameter of that name;
    /// a new name goes last.
    pub fn insert_parameter(&mut self, name: String, parameter: Parameter)
        requires
            old(self)@.wf(),
        ensures
            final(self)@.wf(),
            ({
                let i = old(self)@.slot(name@);
                if i >= 0 {
                    final(self)@.names == old(self)@.names && final(self)@.params == old(
                        self,
                    )@.params.update(i, parameter@)
                } else {
                    final(self)@.names == old(self)@.names.push(name@) && final(self)@.params
                        == old(self)@.params.push(parameter@)
                }
            }),
    {
        match find_string(&self.names, name.as_str()) {
            Some(i) => {
                self.parameters.set(i, parameter);
                assert(self@.params =~= old(self)@.params.update(i as int, parameter@));
            },
            None => {
                proof {
                    assert forall|j: int| 0 <= j < self@.names.len() implies self@.names[j]
                        != name@ by {
                        if self@.names[j] == name@ {
                            lemma_first_exists(self@.names, name@, j);
                        }
                    }
                }
                self.names.push(name);
                self.parameters.push(parameter);
                assert(self@.names =~= old(self)@.names.push(name@));
                assert(self@.params =~= old(self)@.params.push(parameter@));
            },
        }
    }

    /// The names of the parameters, in the order of insertion.
    pub fn get_parameters_names(&self) -> (r: Result<Vec<String>, ConfigError>)
        ensures
            self@.names.len() == 0 ==> r == Err::<Vec<String>, ConfigError>(
                ConfigError::EmptyParameterList,
            ),
            self@.names.len() > 0 ==> r is Ok && texts(r->Ok_0@) == self@.names,
    {
        if self.names.len() == 0 {
            return Err(ConfigError::EmptyParameterList);
        }
        Ok(clone_strings(&self.names))
    }

    /// Where the parameter `key` stands.
    fn slot_of(&self, key: &str) -> (r: Result<usize, ConfigError>)
        requires
            self@.wf(),
        ensures
            match r {
                Ok(i) => self@.slot(key@) == i as int && i < self@.names.len(),
                Err(e) => self@.slot(key@) == -1 && e == ConfigError::ParameterNotFound,
            },
    {
        match find_string(&self.names, key) {
            Some(i) => Ok(i),
            None => Err(ConfigError::ParameterNotFound),
        }
    }

    /// Applies `f`'s change to the parameter at `i` by taking it out and
    /// putting it back.
    fn take_parameter(&mut self, i: usize) -> (r: Parameter)
        requires
            old(self)@.wf(),
            i < old(self)@.names.len(),
        ensures
            r@ == old(self)@.params[i as int],
            final(self).names@ == old(self).names@,
            final(self).parameters@ == old(self).parameters@.remove(i as int),
    {
        self.parameters.remove(i)
    }

    fn put_parameter(&mut self, i: usize, p: Parameter)
        requires
            old(self).parameters@.len() + 1 == old(self).names@.len(),
            i < old(self).names@.len(),
        ensures
            final(self).names@ == old(self).names@,
            final(self).parameters@ == old(self).parameters@.insert(i as int, p),
    {
        self.parameters.insert(i, p);
    }

    /// Sets the current value of `key`; only a legal value is taken.
    pub fn set_parameter_value(&mut self, key: &str, value: String) -> (r: Result<(), ConfigError>)
        requires
            old(self)@.wf(),
        ensures
            final(self)@.wf(),
            ({
                let i = old(self)@.slot(key@);
                if i < 0 {
                    r == Err::<(), ConfigError>(ConfigError::ParameterNotFound) && final(self)@
                        == old(self)@
                } else if !old(self)@.params[i].possible_values.contains(value@) {
                    r == Err::<(), ConfigError>(ConfigError::ValueNotInDomain) && final(self)@
                        == old(self)@
                } else {
                    r is Ok && final(self)@ == old(self)@.set_value_at(i, value@)
                }
            }),
    {
        let i = self.slot_of(key)?;
        let ghost before = self@;
        let mut p = self.take_parameter(i);
        let result = p.set_value(value);
        self.put_parameter(i, p);
        proof {
            assert(old(self).parameters@.remove(i as int).insert(i as int, p) =~= old(
                self,
            ).parameters@.update(i as int, p));
            if result is Ok {
                assert(self@.params =~= before.params.update(i as int, before.params[i as int].with_value(value@)));
            } else {
                assert(self@.params =~= before.params);
            }
        }
        result
    }

    /// The position of `key`'s current value among its legal values.
    pub fn get_parameter_index_using_value(&self, key: &str) -> (r: Result<u8, ConfigError>)
        requires
            self@.wf(),
        ensures
            r == self@.value_index(key@),
    {
        let i = self.slot_of(key)?;
        let p = &self.parameters[i];
        match find_string(&p.possible_values, p.value.as_str()) {
            Some(k) => {
                if k > 255 {
                    Err(ConfigError::IndexOutOfRange)
                } else {
                    Ok(k as u8)
                }
            },
            None => Err(ConfigError::ValueNotInDomain),
        }
    }

    /// Sets `key` to its legal value number `index`.
    pub fn set_parameter_value_using_index(&mut self, key: &str, index: u8) -> (r: Result<
        (),
        ConfigError,
    >)
        requires
            old(self)@.wf(),
        ensures
            final(self)@.wf(),
            final(self)@ == old(self)@.set_by_index(key@, index as int),
            old(self)@.slot(key@) < 0 ==> r == Err::<(), ConfigError>(
                ConfigError::ParameterNotFound,
            ),
            old(self)@.slot(key@) >= 0 && !old(self)@.index_in_range(key@, index as int) ==> r
                == Err::<(), ConfigError>(ConfigError::IndexOutOfRange),
            old(self)@.index_in_range(key@, index as int) ==> r is Ok,
    {
        let i = self.slot_of(key)?;
        let values = self.parameters[i].get_possible_values();
        if (index as usize) < values.len() {
            let value = values[index as usize].clone();
            assert(value@ == self@.params[i as int].possible_values[index as int]);
            let r = self.set_parameter_value(key, value);
            assert(r is Ok);
            r
        } else {
            Err(ConfigError::IndexOutOfRange)
        }
    }

    pub fn get_parameter_description(&self, key: &str) -> (r: Result<String, ConfigError>)
        requires
            self@.wf(),
        ensures
            ({
                let i = self@.slot(key@);
                if i >= 0 {
                    r is Ok && r->Ok_0@ == self@.params[i].description
                } else {
                    r == Err::<String, ConfigError>(ConfigError::ParameterNotFound)
                }
            }),
    {
        let i = self.slot_of(key)?;
        Ok(self.parameters[i].get_description())
    }

    pub fn get_parameter_possible_values(&self, key: &str) -> (r: Result<Vec<String>, ConfigError>)
        requires
            self@.wf(),
        ensures
            ({
                let i = self@.slot(key@);
                if i >= 0 {
                    r is Ok && texts(r->Ok_0@) == self@.params[i].possible_values
                } else {
                    r == Err::<Vec<String>, ConfigError>(ConfigError::ParameterNotFound)
                }
            }),
    {
        let i = self.slot_of(key)?;
        Ok(self.parameters[i].get_possible_values())
    }

    pub fn get_parameter_value(&self, key: &str) -> (r: Result<String, ConfigError>)
        requires
            self@.wf(),
        ensures
            ({
                let i = self@.slot(key@);
                if i >= 0 {
                    r is Ok && r->Ok_0@ == self@.params[i].value
                } else {
                    r == Err::<String, ConfigError>(ConfigError::ParameterNotFound)
                }
            }),
    {
        let i = self.slot_of(key)?;
        Ok(self.parameters[i].get_value())
    }
}

proof fn lemma_first_exists<T>(s: Seq<T>, x: T, j: int)
    requires
        0 <= j < s.len(),
        s[j] == x,
    ensures
        position_of(s, x) >= 0,
    decreases j,
{
    if exists|k: int| 0 <= k < j && s[k] == x {
        let k = choose|k: int| 0 <= k < j && s[k] == x;
        lemma_first_exists(s, x, k);
    } else {
        assert(is_first_index(s, x, j));
    }
}

} // verus!
