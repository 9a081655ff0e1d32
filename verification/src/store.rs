use vstd::prelude::*;

use crate::codec::{decode_snapshot, decoded_snapshot, encode_snapshot, snapshot_text};
use crate::persist::{env_default_at, PersistenceEnv, StoreError};
use crate::snapshot::Snapshot;

verus! {

/// The in-memory map after a reload-merge of `mem` against the decoded disk
/// map `d`: every binding of `d` is copied into `mem`, the disk winning on a
/// shared key; keys held only in memory are preserved.
pub open spec fn reload_merge(
    mem: Map<Seq<char>, Seq<char>>,
    d: Map<Seq<char>, Seq<char>>,
) -> Map<Seq<char>, Seq<char>> {
    mem.union_prefer_right(d)
}

/// The Eager Store: a named, disk-persisted string-to-string map that
/// reloads the backing file before every read or write and persists the
/// full in-memory snapshot after every mutation.
///
/// The backing file is passed to each operation as a plain value: `None`
/// when it does not exist, `Some(text)` when its content is `text`.
pub struct MapEnv {
    inner: Snapshot,
    env: PersistenceEnv,
}

impl View for MapEnv {
    type V = Map<Seq<char>, Seq<char>>;

    closed spec fn view(&self) -> Map<Seq<char>, Seq<char>> {
        self.inner@
    }
}

impl MapEnv {
    /// The in-memory snapshot holds each key once.
    pub closed spec fn wf(&self) -> bool {
        self.inner.wf()
    }

    /// The name of the backing file.
    pub closed spec fn name_view(&self) -> Seq<char> {
        self.env.name_view()
    }

    /// Reload-merge: loads the file, decodes it, and unions the decoded
    /// bindings into the in-memory snapshot, the disk winning on shared keys.
    fn update_inner(&mut self, file: &Option<String>) -> (r: Result<(), StoreError>)
        requires
            old(self).wf(),
        ensures
            final(self).wf(),
            final(self).name_view() == old(self).name_view(),
            r is Ok <==> (file is Some && decoded_snapshot(file.unwrap()@) is Some),
            r is Ok ==> final(self)@ == reload_merge(
                old(self)@,
                decoded_snapshot(file.unwrap()@).unwrap(),
            ),
            file is None ==> r == Result::<(), StoreError>::Err(StoreError::IoError),
            (file is Some && decoded_snapshot(file.unwrap()@) is None) ==> r == Result::<
                (),
                StoreError,
            >::Err(StoreError::DecodeError),
            r is Err ==> *final(self) == *old(self),
            forall|m: Map<Seq<char>, Seq<char>>|
                (file matches Some(c) && c@ == #[trigger] snapshot_text(m) && m.dom().finite())
                    ==> (r is Ok && final(self)@ == reload_merge(old(self)@, m)),
    {
        let content = match self.env.load_from_local(file) {
            Ok(c) => c,
            Err(e) => {
                return Err(e);
            },
        };
        let decoded = match decode_snapshot(content.as_str()) {
            Ok(s) => s,
            Err(e) => {
                return Err(e);
            },
        };
        self.inner.merge_from(&decoded);
        Ok(())
    }

    /// Flush: encodes the full in-memory snapshot and overwrites the file
    /// with it.
    fn update_outer(&self, file: &mut Option<String>)
        ensures
            (*final(file)) matches Some(c) && c@ == snapshot_text(self@),
    {
        let text = encode_snapshot(&self.inner);
        self.env.save_to_local(file, text.as_str());
    }

    /// Reload-merges from the file, binds `key` to `value` in memory,
    /// persists the full in-memory snapshot, and returns the value that the
    /// merged map held for `key`, if any.
    pub fn put(&mut self, key: &str, value: &str, file: &mut Option<String>) -> (r: Result<
        Option<String>,
        StoreError,
    >)
        requires
            old(self).wf(),
        ensures
            final(self).wf(),
            final(self).name_view() == old(self).name_view(),
            r is Ok <==> ((*old(file)) is Some && decoded_snapshot((*old(file)).unwrap()@) is Some),
            (*old(file)) is None ==> r == Result::<Option<String>, StoreError>::Err(
                StoreError::IoError,
            ),
            ((*old(file)) is Some && decoded_snapshot((*old(file)).unwrap()@) is None) ==> r
                == Result::<Option<String>, StoreError>::Err(StoreError::DecodeError),
            r is Err ==> *final(self) == *old(self) && *final(file) == *old(file),
            r is Ok ==> ({
                let merged = reload_merge(old(self)@, decoded_snapshot((*old(file)).unwrap()@).unwrap());
                &&& final(self)@ == merged.insert(key@, value@)
                &&& (r.unwrap() is Some <==> merged.contains_key(key@))
                &&& (r.unwrap() is Some ==> r.unwrap().unwrap()@ == merged[key@])
                &&& ((*final(file)) matches Some(c) && c@ == snapshot_text(final(self)@))
            }),
            forall|m: Map<Seq<char>, Seq<char>>|
                ((*old(file)) matches Some(c) && c@ == #[trigger] snapshot_text(m)
                    && m.dom().finite()) ==> ({
                    let merged = reload_merge(old(self)@, m);
                    &&& r is Ok
                    &&& final(self)@ == merged.insert(key@, value@)
                    &&& (r.unwrap() is Some <==> merged.contains_key(key@))
                    &&& (r.unwrap() is Some ==> r.unwrap().unwrap()@ == merged[key@])
                    &&& ((*final(file)) matches Some(c2) && c2@ == snapshot_text(final(self)@))
                }),
    {
        match self.update_inner(file) {
            Ok(()) => {},
            Err(e) => {
                return Err(e);
            },
        }
        let prev = self.inner.insert(key, value);
        self.update_outer(file);
        Ok(prev)
    }

    /// Removes `key` from the in-memory map — without a prior reload — and
    /// persists the full in-memory snapshot. A key that another handle has
    /// re-added on disk can therefore come back on this handle's next
    /// reload; that race is part of the design.
    pub fn delete(&mut self, key: &str, file: &mut Option<String>)
        requires
            old(self).wf(),
        ensures
            final(self).wf(),
            final(self).name_view() == old(self).name_view(),
            final(self)@ == old(self)@.remove(key@),
            (*final(file)) matches Some(c) && c@ == snapshot_text(final(self)@),
    {
        self.inner.take_out(key);
        self.update_outer(file);
    }

    /// Reload-merges from the file, then returns the value the merged map
    /// holds for `key`, if any.
    pub fn get(&mut self, key: &str, file: &Option<String>) -> (r: Result<
        Option<String>,
        StoreError,
    >)
        requires
            old(self).wf(),
        ensures
            final(self).wf(),
            final(self).name_view() == old(self).name_view(),
            r is Ok <==> (file is Some && decoded_snapshot(file.unwrap()@) is Some),
            file is None ==> r == Result::<Option<String>, StoreError>::Err(StoreError::IoError),
            (file is Some && decoded_snapshot(file.unwrap()@) is None) ==> r == Result::<
                Option<String>,
                StoreError,
            >::Err(StoreError::DecodeError),
            r is Err ==> *final(self) == *old(self),
            r is Ok ==> ({
                let merged = reload_merge(old(self)@, decoded_snapshot(file.unwrap()@).unwrap());
                &&& final(self)@ == merged
                &&& (r.unwrap() is Some <==> merged.contains_key(key@))
                &&& (r.unwrap() is Some ==> r.unwrap().unwrap()@ == merged[key@])
            }),
            forall|m: Map<Seq<char>, Seq<char>>|
                (file matches Some(c) && c@ == #[trigger] snapshot_text(m) && m.dom().finite())
                    ==> ({
                    let merged = reload_merge(old(self)@, m);
                    &&& r is Ok
                    &&& final(self)@ == merged
                    &&& (r.unwrap() is Some <==> merged.contains_key(key@))
                    &&& (r.unwrap() is Some ==> r.unwrap().unwrap()@ == merged[key@])
                }),
    {
        match self.update_inner(file) {
            Ok(()) => {},
            Err(e) => {
                return Err(e);
            },
        }
        Ok(self.inner.lookup(key))
    }

    /// The store's identifying path.
    pub fn get_name(&self) -> (r: &String)
        ensures
            r@ == self.name_view(),
    {
        self.env.name()
    }
}

/// Builds the Eager Store for `name`: when the backing file is absent it is
/// created holding an encoded empty snapshot; an existing file is left
/// untouched. The store starts with an empty in-memory snapshot.
pub fn create_or_load_map_env(name: &str, file: &mut Option<String>) -> (r: MapEnv)
    ensures
        r.wf(),
        r.name_view() == name@,
        r@ == Map::<Seq<char>, Seq<char>>::empty(),
        (*old(file)) is Some ==> *final(file) == *old(file),
        (*old(file)) is None ==> ((*final(file)) matches Some(c) && c@ == snapshot_text(
            Map::<Seq<char>, Seq<char>>::empty(),
        )),
{
    let env = env_default_at(name);
    let empty = Snapshot::new();
    let text = encode_snapshot(&empty);
    env.init_env(file, text.as_str());
    MapEnv { inner: empty, env }
}

} // verus!
