//! The parameters as a menu edits them: a list that copies the store's
//! parameters, and whose choices are written back to it.
use vstd::prelude::*;
use crate::config::{position_of, texts, ConfigError, ConfigView, DeviceConfig};

verus! {

/// One parameter as the menu shows it.
#[derive(Clone, Debug)]
pub struct Parameter {
    /// The name of the parameter in the store.
    pub key: String,
    /// What the menu shows for it.
    pub description: String,
    /// Its legal values.
    pub options: Vec<String>,
    /// The value chosen in the menu.
    pub selected_value: String,
}

impl Parameter {
    pub fn new(key: String, description: String, options: Vec<String>, selected: String) -> (r:
        Parameter)
        ensures
            r.key == key,
            r.description == description,
            r.options == options,
            r.selected_value == selected,
    {
        Parameter { key, description, options, selected_value: selected }
    }
}

/// The names of the parameters in a list.
pub open spec fn keys_of(ps: Seq<Parameter>) -> Seq<Seq<char>> {
    ps.map_values(|p: Parameter| p.key@)
}

/// The parameter as `key`'s entry of `store` shows it.
pub open spec fn copies(p: Parameter, store: ConfigView, i: int) -> bool {
    &&& p.key@ == store.names[i]
    &&& p.description@ == store.params[i].description
    &&& texts(p.options@) == store.params[i].possible_values
    &&& p.selected_value@ == store.params[i].value
}

/// The menu's copy of the store.
#[derive(Clone, Debug)]
pub struct DeviceParameters {
    pub parameters: Vec<Parameter>,
}

impl Default for DeviceParameters {
    fn default() -> (r: DeviceParameters)
        ensures
            r.parameters@.len() == 0,
    {
        DeviceParameters::new()
    }
}

proof fn lemma_slot_of_name(store: ConfigView, i: int)
    requires
        store.wf(),
        0 <= i < store.names.len(),
    ensures
        store.slot(store.names[i]) == i,
{
    crate::config::lemma_position_of(store.names, store.names[i], i);
}

impl DeviceParameters {
    pub fn new() -> (r: DeviceParameters)
        ensures
            r.parameters@.len() == 0,
    {
        DeviceParameters { parameters: Vec::new() }
    }

    /// Appends a copy of every parameter of `parameters_schema`, in its order.
    pub fn load_user_config(&mut self, parameters_schema: &DeviceConfig) -> (r: Result<
        (),
        ConfigError,
    >)
        requires
            parameters_schema@.wf(),
        ensures
            parameters_schema@.names.len() == 0 ==> r == Err::<(), ConfigError>(
                ConfigError::EmptyParameterList,
            ) && final(self).parameters@ == old(self).parameters@,
            parameters_schema@.names.len() > 0 ==> {
                &&& r is Ok
                &&& final(self).parameters@.len() == old(self).parameters@.len()
                    + parameters_schema@.names.len()
                &&& final(self).parameters@.subrange(0, old(self).parameters@.len() as int) == old(
                    self,
                ).parameters@
                &&& forall|i: int|
                    0 <= i < parameters_schema@.names.len() ==> copies(
                        #[trigger] final(self).parameters@[old(self).parameters@.len() + i],
                        parameters_schema@,
                        i,
                    )
            },
    {
        let names = parameters_schema.get_parameters_names()?;
        let ghost base = self.parameters@;
        let ghost store = parameters_schema@;
        let mut k: usize = 0;
        while k < names.len()
            invariant
                store == parameters_schema@,
                store.wf(),
                texts(names@) == store.names,
                k <= names@.len(),
                self.parameters@.len() == base.len() + k,
                self.parameters@.subrange(0, base.len() as int) == base,
                forall|i: int|
                    0 <= i < k ==> copies(#[trigger] self.parameters@[base.len() + i], store, i),
            decreases names@.len() - k,
        {
            let key = names[k].clone();
            proof {
                lemma_slot_of_name(store, k as int);
                assert(texts(names@)[k as int] == key@);
            }
            let parameter_values = parameters_schema.get_parameter_possible_values(key.as_str())?;
            let parameter_desc = parameters_schema.get_parameter_description(key.as_str())?;
            let parameter_value = parameters_schema.get_parameter_value(key.as_str())?;
            let p = Parameter::new(key, parameter_desc, parameter_values, parameter_value);
            self.add_parameter(p);
            assert(self.parameters@.subrange(0, base.len() as int) =~= base);
            k = k + 1;
        }
        Ok(())
    }

    /// Writes every chosen value back to `parameters_schema`, in the order of
    /// the list; the first refusal stops it.
    pub fn update_user_config(&self, parameters_schema: &mut DeviceConfig) -> (r: Result<
        (),
        ConfigError,
    >)
        requires
            old(parameters_schema)@.wf(),
        ensures
            final(parameters_schema)@.wf(),
            written_back(old(parameters_schema)@, self.parameters@).0 == r,
            written_back(old(parameters_schema)@, self.parameters@).1 == final(parameters_schema)@,
    {
        let mut k: usize = 0;
        assert(self.parameters@.subrange(0, self.parameters@.len() as int) =~= self.parameters@);
        while k < self.parameters.len()
            invariant
                parameters_schema@.wf(),
                k <= self.parameters@.len(),
                written_back(old(parameters_schema)@, self.parameters@) == written_back(
                    parameters_schema@,
                    self.parameters@.subrange(k as int, self.parameters@.len() as int),
                ),
            decreases self.parameters@.len() - k,
        {
            let ghost rest = self.parameters@.subrange(k as int, self.parameters@.len() as int);
            assert(rest.drop_first() =~= self.parameters@.subrange(
                k + 1,
                self.parameters@.len() as int,
            ));
            let value = self.parameters[k].selected_value.clone();
            let result = parameters_schema.set_parameter_value(self.parameters[k].key.as_str(), value);
            match result {
                Ok(()) => {},
                Err(e) => {
                    return Err(e);
                },
            }
            k = k + 1;
        }
        assert(self.parameters@.subrange(k as int, self.parameters@.len() as int) =~= Seq::<
            Parameter,
        >::empty());
        Ok(())
    }

    /// Appends a parameter.
    pub fn add_parameter(&mut self, param: Parameter)
        ensures
            final(self).parameters@ == old(self).parameters@.push(param),
    {
        self.parameters.push(param);
    }

    /// Sets the chosen value of the first parameter named `key`; without one,
    /// nothing changes.
    pub fn update_parameter(&mut self, key: &str, value: String)
        ensures
            ({
                let i = position_of(keys_of(old(self).parameters@), key@);
                if i < 0 {
                    final(self).parameters@ == old(self).parameters@
                } else {
                    final(self).parameters@ == old(self).parameters@.update(
                        i,
                        Parameter { selected_value: value, ..old(self).parameters@[i] },
                    )
                }
            }),
    {
        let k = key.to_owned();
        let mut i: usize = 0;
        while i < self.parameters.len()
            invariant
                i <= self.parameters@.len(),
                k@ == key@,
                self.parameters@ == old(self).parameters@,
                forall|j: int| 0 <= j < i ==> keys_of(self.parameters@)[j] != key@,
            decreases self.parameters@.len() - i,
        {
            if self.parameters[i].key == k {
                proof {
                    assert(keys_of(self.parameters@)[i as int] == key@);
                    crate::config::lemma_position_of(keys_of(self.parameters@), key@, i as int);
                }
                let mut p = self.parameters.remove(i);
                p.selected_value = value;
                self.parameters.insert(i, p);
                assert(self.parameters@ =~= old(self).parameters@.update(
                    i as int,
                    Parameter { selected_value: value, ..old(self).parameters@[i as int] },
                ));
                return;
            }
            i = i + 1;
        }
    }
}

/// The store, and the outcome, after writing back the chosen values of `ps`
/// one by one; the first refusal stops it.
pub open spec fn written_back(store: ConfigView, ps: Seq<Parameter>) -> (Result<(), ConfigError>, ConfigView)
    decreases ps.len(),
{
    if ps.len() == 0 {
        (Ok(()), store)
    } else {
        let key = ps[0].key@;
        let value = ps[0].selected_value@;
        let i = store.slot(key);
        if i < 0 {
            (Err(ConfigError::ParameterNotFound), store)
        } else if !store.params[i].possible_values.contains(value) {
            (Err(ConfigError::ValueNotInDomain), store)
        } else {
            written_back(store.set_value_at(i, value), ps.drop_first())
        }
    }
}

} // verus!
