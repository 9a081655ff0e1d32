use vstd::prelude::*;

verus! {

/// How a store operation fails.
#[derive(Clone, Copy, PartialEq, Eq, Structural, Debug)]
pub enum StoreError {
    /// The backing file does not exist or could not be read or written.
    IoError,
    /// The backing file's content is not a valid encoding of a snapshot.
    DecodeError,
}

/// Owns the name of one backing file and performs the raw load, save and
/// initialize steps against it. The file itself is passed in as a value:
/// `None` when it does not exist, `Some(text)` when its content is `text`.
pub struct PersistenceEnv {
    name: String,
}

impl PersistenceEnv {
    /// The name of the backing file.
    pub closed spec fn name_view(&self) -> Seq<char> {
        self.name@
    }

    /// Overwrites the file with `to_save`, creating it if absent.
    pub fn save_to_local(&self, file: &mut Option<String>, to_save: &str)
        ensures
            (*final(file)) matches Some(c) && c@ == to_save@,
    {
        *file = Some(to_save.to_owned());
    }

    /// Reads the whole file content; fails when the file does not exist.
    pub fn load_from_local(&self, file: &Option<String>) -> (r: Result<String, StoreError>)
        ensures
            r is Ok <==> file is Some,
            r matches Ok(c) ==> c@ == file.unwrap()@,
            file is None ==> r == Result::<String, StoreError>::Err(StoreError::IoError),
    {
        match file {
            Some(content) => Ok(content.clone()),
            None => Err(StoreError::IoError),
        }
    }

    /// If the file does not exist, creates it with content `with`; an
    /// existing file is left untouched.
    pub fn init_env(&self, file: &mut Option<String>, with: &str)
        ensures
            (*old(file)) is None ==> ((*final(file)) matches Some(c) && c@ == with@),
            (*old(file)) is Some ==> *final(file) == *old(file),
    {
        if file.is_none() {
            *file = Some(with.to_owned());
        }
    }

    /// The store's identifying path.
    pub fn name(&self) -> (r: &String)
        ensures
            r@ == self.name_view(),
    {
        &self.name
    }
}

/// A persistence handle for the file named `name`.
pub fn env_default_at(name: &str) -> (r: PersistenceEnv)
    ensures
        r.name_view() == name@,
{
    PersistenceEnv { name: name.to_owned() }
}

} // verus!
