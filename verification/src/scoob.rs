//! A directory: a counted map together with the tag of its owner.

use vstd::prelude::*;
use crate::filemap::{value_at, _FileMap};
use crate::keyed::{MapKey, MapValue};

verus! {

/// A directory of files. The owner tag is carried along; no lookup consults
/// it.
pub struct _Scoob<K: MapKey, V: MapValue> {
    pub filedir: _FileMap<K, V>,
    pub fileowner: Vec<u8>,
}

impl<K: MapKey, V: MapValue> _Scoob<K, V> {
    /// Reads one file: what the underlying map reads at `key`.
    pub fn _one_file(&self, key: &K) -> (r: V)
        requires
            self.filedir.wf(),
        ensures
            r == value_at(self.filedir@, *key),
    {
        self.filedir._get(key)
    }
}

} // verus!
