use vstd::prelude::*;
use vstd::std_specs::convert::FromSpecImpl;

verus! {

/// An item of a list input to the model. No kind of item is defined yet:
/// the one variant holds a value that cannot exist, so the type has no value.
#[derive(Debug)]
pub enum ResponseInputItem {
    Never(std::convert::Infallible),
}

impl Clone for ResponseInputItem {
    fn clone(&self) -> (out: Self) {
        match self {
            ResponseInputItem::Never(never) => ResponseInputItem::Never(*never),
        }
    }
}

/// Text, image, or file inputs to the model.
#[derive(Debug, Clone)]
pub enum ResponseInput {
    /// A text input to the model, equivalent to a text input with the `user` role.
    Text(String),
    /// A list of one or many input items to the model, containing different content types.
    ItemList(Vec<ResponseInputItem>),
}

impl From<String> for ResponseInput {
    fn from(value: String) -> (out: Self) {
        ResponseInput::Text(value)
    }
}

impl FromSpecImpl<String> for ResponseInput {
    open spec fn obeys_from_spec() -> bool {
        true
    }

    open spec fn from_spec(value: String) -> Self {
        ResponseInput::Text(value)
    }
}

impl From<Vec<ResponseInputItem>> for ResponseInput {
    fn from(value: Vec<ResponseInputItem>) -> (out: Self) {
        ResponseInput::ItemList(value)
    }
}

impl FromSpecImpl<Vec<ResponseInputItem>> for ResponseInput {
    open spec fn obeys_from_spec() -> bool {
        true
    }

    open spec fn from_spec(value: Vec<ResponseInputItem>) -> Self {
        ResponseInput::ItemList(value)
    }
}

} // verus!
