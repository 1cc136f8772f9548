use vstd::prelude::*;

verus! {

/// The three kinds of configuration error; each names the offending key.
#[derive(Debug, Clone, PartialEq, Eq)]
pub enum ConfigError {
    /// A required key has no value and no default, or the schema has no such key.
    MissingName(String),
    /// A raw string could not be read as the declared type.
    InvalidValue { name: String, message: String },
    /// A well-formed value broke a validator's constraint.
    ValidationFailed { name: String, message: String },
}

/// The mathematical model of a `ConfigError`.
pub enum ErrorModel {
    MissingName(Seq<char>),
    InvalidValue { name: Seq<char>, message: Seq<char> },
    ValidationFailed { name: Seq<char>, message: Seq<char> },
}

impl View for ConfigError {
    type V = ErrorModel;

    open spec fn view(&self) -> ErrorModel {
        match self {
            ConfigError::MissingName(n) => ErrorModel::MissingName(n@),
            ConfigError::InvalidValue { name, message } => ErrorModel::InvalidValue {
                name: name@,
                message: message@,
            },
            ConfigError::ValidationFailed { name, message } => ErrorModel::ValidationFailed {
                name: name@,
                message: message@,
            },
        }
    }
}

impl ErrorModel {
    /// The key that the error names.
    pub open spec fn key(self) -> Seq<char> {
        match self {
            ErrorModel::MissingName(n) => n,
            ErrorModel::InvalidValue { name, .. } => name,
            ErrorModel::ValidationFailed { name, .. } => name,
        }
    }

    /// The single line that describes the error.
    pub open spec fn rendered(self) -> Seq<char> {
        match self {
            ErrorModel::MissingName(n) => "Missing required configuration name: '"@ + n + "'"@,
            ErrorModel::InvalidValue { name, message } => "Failed to parse name '"@ + name
                + "': "@ + message,
            ErrorModel::ValidationFailed { name, message } => "Validation failed for name '"@
                + name + "': "@ + message,
        }
    }
}

/// The model of a check that either passes or fails with an error.
pub open spec fn outcome_view(r: Result<(), ConfigError>) -> Result<(), ErrorModel> {
    match r {
        Ok(_) => Ok(()),
        Err(e) => Err(e@),
    }
}

impl ConfigError {
    /// The key that the error names.
    pub fn key(&self) -> (r: &String)
        ensures
            r@ == self@.key(),
    {
        match self {
            ConfigError::MissingName(n) => n,
            ConfigError::InvalidValue { name, .. } => name,
            ConfigError::ValidationFailed { name, .. } => name,
        }
    }

    /// One descriptive line naming the key and the reason.
    pub fn to_string(&self) -> (r: String)
        ensures
            r@ == self@.rendered(),
    {
        match self {
            ConfigError::MissingName(n) => {
                let mut s = String::from_str("Missing required configuration name: '");
                s.append(n.as_str());
                s.append("'");
                s
            },
            ConfigError::InvalidValue { name, message } => {
                let mut s = String::from_str("Failed to parse name '");
                s.append(name.as_str());
                s.append("': ");
                s.append(message.as_str());
                s
            },
            ConfigError::ValidationFailed { name, message } => {
                let mut s = String::from_str("Validation failed for name '");
                s.append(name.as_str());
                s.append("': ");
                s.append(message.as_str());
                s
            },
        }
    }
}

} // verus!
