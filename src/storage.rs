//! A one-slot store that keeps a value as the bytes of a pluggable encoding.
use vstd::prelude::*;
use std::marker::PhantomData;

verus! {

/// An encoding of values of type `T` as bytes, and back.
pub trait Serializer<T> {
    /// A short name of the encoding.
    fn name(&self) -> &'static str;

    /// Encodes `value`, or says why it cannot.
    fn to_bytes(&self, value: &T) -> Result<Vec<u8>, String>;

    /// Decodes a value from `bytes`, or says why it cannot.
    fn from_bytes(&self, bytes: &[u8]) -> Result<T, String>;
}

/// Why a [`Storage`] could not save or load.
#[derive(Debug)]
pub enum StorageError {
    /// Nothing has been saved yet.
    NoData,
    /// The encoding refused the value or the bytes.
    Codec(String),
}

/// Holds at most one value of type `T`, as the bytes that `S` gave for it.
pub struct Storage<T, S> {
    data: Option<Vec<u8>>,
    serializer: S,
    _type: PhantomData<T>,
}

impl<T, S: Serializer<T>> Storage<T, S> {
    /// The bytes held, if any.
    pub closed spec fn stored(&self) -> Option<Seq<u8>> {
        match self.data {
            Some(d) => Some(d@),
            None => None,
        }
    }

    /// An empty store that encodes with `serializer`.
    pub fn new(serializer: S) -> (r: Self)
        ensures
            r.stored() is None,
    {
        Storage { data: None, serializer, _type: PhantomData }
    }

    /// Encodes `value` and keeps its bytes in place of what was held; where the
    /// encoding fails, the store is left as it was.
    pub fn save(&mut self, value: &T) -> (r: Result<(), StorageError>)
        ensures
            r is Ok ==> final(self).stored() is Some,
            r is Err ==> final(self).stored() == old(self).stored() && r->Err_0 is Codec,
    {
        match self.serializer.to_bytes(value) {
            Ok(bytes) => {
                self.data = Some(bytes);
                Ok(())
            },
            Err(e) => Err(StorageError::Codec(e)),
        }
    }

    /// Decodes the value held; `NoData` where nothing has been saved, `Codec`
    /// where the encoding refuses the bytes.
    pub fn load(&self) -> (r: Result<T, StorageError>)
        ensures
            self.stored() is None ==> r matches Err(StorageError::NoData),
            self.stored() is Some ==> (r is Ok || r->Err_0 is Codec),
    {
        match &self.data {
            Some(data) => match self.serializer.from_bytes(data.as_slice()) {
                Ok(v) => Ok(v),
                Err(e) => Err(StorageError::Codec(e)),
            },
            None => Err(StorageError::NoData),
        }
    }

    /// Whether a value has been saved.
    pub fn has_data(&self) -> (r: bool)
        ensures
            r == self.stored() is Some,
    {
        self.data.is_some()
    }
}

} // verus!
