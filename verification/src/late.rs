use vstd::prelude::*;

use crate::codec::{decode_snapshot, decoded_snapshot, encode_snapshot, snapshot_text};
use crate::persist::{env_default_at, PersistenceEnv, StoreError};
use crate::snapshot::Snapshot;

verus! {

/// The Late-Save Store: the same map semantics as the Eager Store, but
/// `put`, `delete` and `get` touch only the in-memory snapshot. The backing
/// file changes only on an explicit `save`, so the in-memory state may be
/// arbitrarily ahead of the file.
pub struct LateSaveMapEnv {
    inner: Snapshot,
    env: PersistenceEnv,
}

impl View for LateSaveMapEnv {
    type V = Map<Seq<char>, Seq<char>>;

    closed spec fn view(&self) -> Map<Seq<char>, Seq<char>> {
        self.inner@
    }
}

impl LateSaveMapEnv {
    /// The in-memory snapshot holds each key once.
    pub closed spec fn wf(&self) -> bool {
        self.inner.wf()
    }

    /// The name of the backing file.
    pub closed spec fn name_view(&self) -> Seq<char> {
        self.env.name_view()
    }

    /// Binds `key` to `value` in memory and returns the value previously
    /// held, if any. No file is touched, as the signature shows.
    pub fn put(&mut self, key: &str, value: &str) -> (r: Option<String>)
        requires
            old(self).wf(),
        ensures
            final(self).wf(),
            final(self).name_view() == old(self).name_view(),
            final(self)@ == old(self)@.insert(key@, value@),
            r is Some <==> old(self)@.contains_key(key@),
            r is Some ==> r.unwrap()@ == old(self)@[key@],
    {
        self.inner.insert(key, value)
    }

    /// Removes `key` from the in-memory map; no file is touched.
    pub fn delete(&mut self, key: &str)
        requires
            old(self).wf(),
        ensures
            final(self).wf(),
            final(self).name_view() == old(self).name_view(),
            final(self)@ == old(self)@.remove(key@),
    {
        self.inner.take_out(key);
    }

    /// The value held in memory for `key`, if any; the file is not read, so
    /// changes another handle has saved since construction stay unseen.
    pub fn get(&self, key: &str) -> (r: Option<String>)
        requires
            self.wf(),
        ensures
            r is Some <==> self@.contains_key(key@),
            r is Some ==> r.unwrap()@ == self@[key@],
    {
        self.inner.lookup(key)
    }

    /// Encodes the full in-memory snapshot and overwrites the file with it.
    pub fn save(&self, file: &mut Option<String>)
        ensures
            (*final(file)) matches Some(c) && c@ == snapshot_text(self@),
    {
        let text = encode_snapshot(&self.inner);
        self.env.save_to_local(file, text.as_str());
    }

    /// The store's identifying path.
    pub fn get_name(&self) -> (r: &String)
        ensures
            r@ == self.name_view(),
    {
        self.env.name()
    }
}

/// Builds the Late-Save Store for `name`: when the backing file is absent it
/// is created holding an encoded empty snapshot; the file is then loaded and
/// decoded into the starting in-memory snapshot, so a returning process sees
/// its last saved state immediately.
pub fn create_or_load_late_save_map_env(name: &str, file: &mut Option<String>) -> (r: Result<
    LateSaveMapEnv,
    StoreError,
>)
    ensures
        r matches Ok(env) ==> env.wf() && env.name_view() == name@,
        (*old(file)) is None ==> ({
            &&& r is Ok
            &&& r.unwrap()@ == Map::<Seq<char>, Seq<char>>::empty()
            &&& ((*final(file)) matches Some(c) && c@ == snapshot_text(
                Map::<Seq<char>, Seq<char>>::empty(),
            ))
        }),
        (*old(file)) is Some ==> *final(file) == *old(file),
        (*old(file)) matches Some(c) ==> (r is Ok <==> decoded_snapshot(c@) is Some),
        (*old(file)) matches Some(c) ==> (decoded_snapshot(c@) is Some ==> r.unwrap()@
            == decoded_snapshot(c@).unwrap()),
        r is Err ==> r == Result::<LateSaveMapEnv, StoreError>::Err(StoreError::DecodeError),
        forall|m: Map<Seq<char>, Seq<char>>|
            ((*old(file)) matches Some(c) && c@ == #[trigger] snapshot_text(m)
                && m.dom().finite()) ==> (r is Ok && r.unwrap()@ == m),
{
    let env = env_default_at(name);
    let empty = Snapshot::new();
    let text = encode_snapshot(&empty);
    env.init_env(file, text.as_str());
    let content = match env.load_from_local(file) {
        Ok(c) => c,
        Err(e) => {
            return Err(e);
        },
    };
    let snap = match decode_snapshot(content.as_str()) {
        Ok(s) => s,
        Err(e) => {
            return Err(e);
        },
    };
    Ok(LateSaveMapEnv { inner: snap, env })
}

} // verus!
