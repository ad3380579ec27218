//! What can go wrong with a property file or a property.
use vstd::prelude::*;

verus! {

/// The format of the file was invalid.
#[derive(Debug)]
pub struct InvalidFormat;

/// Why a property could not be had.
#[derive(Debug)]
pub enum Property {
    /// No property with the given key exists.
    NotFound(String),
    /// The property with the given key had an invalid value.
    InvalidValue(String),
}

/// A `Property` error with its key as a sequence of characters.
pub enum PropertyView {
    NotFound(Seq<char>),
    InvalidValue(Seq<char>),
}

impl View for Property {
    type V = PropertyView;

    open spec fn view(&self) -> PropertyView {
        match self {
            Property::NotFound(key) => PropertyView::NotFound(key@),
            Property::InvalidValue(key) => PropertyView::InvalidValue(key@),
        }
    }
}

impl Property {
    /// The key of the property that could not be had.
    pub fn key(&self) -> (key: &String)
        ensures
            self@ == PropertyView::NotFound(key@) || self@ == PropertyView::InvalidValue(key@),
    {
        match self {
            Property::NotFound(key) => key,
            Property::InvalidValue(key) => key,
        }
    }
}

} // verus!
