//! The `Config` record and the patch request used to update one.

use vstd::prelude::*;

verus! {

/// Mathematical model of a stored configuration record.
pub ghost struct ConfigView {
    pub id: int,
    pub desc: Seq<char>,
    pub key: Seq<char>,
    pub value: Seq<char>,
}

/// A stored configuration record: a caller-supplied integer id,
/// a free-text description, a string label, and a string payload.
/// Only `value` is searchable and updatable.
#[derive(Clone, Debug)]
pub struct Config {
    /// Unique id for the config item; at most one record per id is stored.
    pub id: i32,
    /// Description of the config.
    pub desc: String,
    /// Key of the config.
    pub key: String,
    /// Value of the config; the only searchable and updatable field.
    pub value: String,
}

impl View for Config {
    type V = ConfigView;

    open spec fn view(&self) -> ConfigView {
        ConfigView {
            id: self.id as int,
            desc: self.desc@,
            key: self.key@,
            value: self.value@,
        }
    }
}

impl Config {
    /// An explicit copy whose result is known field for field;
    /// the derived `Clone` carries no such guarantee for verified callers.
    pub fn duplicate(&self) -> (r: Config)
        ensures
            r == *self,
    {
        Config {
            id: self.id,
            desc: self.desc.clone(),
            key: self.key.clone(),
            value: self.value.clone(),
        }
    }
}

/// Mathematical model of an update request.
pub ghost struct UpdateView {
    pub value: Option<Seq<char>>,
    pub secret: Option<bool>,
}

/// Request to update an existing `Config` record. A present `value`
/// replaces the stored value; an absent one leaves it untouched.
/// `secret` is accepted but has no observable effect.
#[derive(Clone, Debug)]
pub struct ConfigUpdateRequest {
    /// Optional new value for the record.
    pub value: Option<String>,
    /// Optional flag marking the config as a secret; currently a no-op.
    pub secret: Option<bool>,
}

impl View for ConfigUpdateRequest {
    type V = UpdateView;

    open spec fn view(&self) -> UpdateView {
        UpdateView {
            value: match self.value {
                Some(v) => Some(v@),
                None => None,
            },
            secret: self.secret,
        }
    }
}

} // verus!
