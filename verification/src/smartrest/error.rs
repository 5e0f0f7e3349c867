//! What can go wrong when a SmartREST message is built.

use vstd::prelude::*;

verus! {

/// A field that holds a value which the cloud would not accept.
#[derive(Debug)]
pub struct InvalidValueError {
    pub field_name: String,
    pub value: String,
}

impl InvalidValueError {
    /// The message shown to the user.
    pub fn message(&self) -> (text: String)
        ensures
            text@ == "Field `"@ + self.field_name@ + "` contains invalid value: "@ + self.value@,
    {
        let mut text = String::new();
        text.append("Field `");
        text.append(self.field_name.as_str());
        text.append("` contains invalid value: ");
        text.append(self.value.as_str());
        assert(text@ =~= "Field `"@ + self.field_name@ + "` contains invalid value: "@
            + self.value@);
        text
    }
}

/// Why a SmartREST message could not be built.
#[derive(Debug)]
pub enum SmartRestSerializerError {
    /// A field holds a value that is not accepted.
    InvalidValue(InvalidValueError),
    /// The line would take more bytes than the cloud accepts.
    PayloadTooLarge { actual_size: usize, limit: usize },
    /// The message would go to a topic whose name holds a wildcard.
    InvalidTopic { name: String },
    /// The time of an alarm could not be written.
    InvalidTime,
}

/// What an error says, as a value that contracts can speak of.
pub enum Fault {
    InvalidValue { field_name: Seq<char>, value: Seq<char> },
    PayloadTooLarge { actual_size: nat, limit: nat },
    InvalidTopic { name: Seq<char> },
    InvalidTime,
}

impl SmartRestSerializerError {
    /// What the error says.
    pub open spec fn view(&self) -> Fault {
        match self {
            SmartRestSerializerError::InvalidValue(e) => Fault::InvalidValue {
                field_name: e.field_name@,
                value: e.value@,
            },
            SmartRestSerializerError::PayloadTooLarge { actual_size, limit } => {
                Fault::PayloadTooLarge { actual_size: *actual_size as nat, limit: *limit as nat }
            },
            SmartRestSerializerError::InvalidTopic { name } => Fault::InvalidTopic {
                name: name@,
            },
            SmartRestSerializerError::InvalidTime => Fault::InvalidTime,
        }
    }

    /// The error for a field that holds a value which is not accepted.
    pub fn invalid_value(field_name: &str, value: &str) -> (e: SmartRestSerializerError)
        ensures
            e@ == (Fault::InvalidValue { field_name: field_name@, value: value@ }),
    {
        SmartRestSerializerError::InvalidValue(
            InvalidValueError { field_name: field_name.to_owned(), value: value.to_owned() },
        )
    }
}

} // verus!
