//! Where the bot keeps its state between runs.
use vstd::prelude::*;
use vstd::slice::slice_to_vec;

verus! {

/// The name of the file, within the data directory, that holds the state.
pub const STATE_FILE_NAME: &'static str = "state.json";

/// The place where the bot's state is kept: a directory, which holds the
/// state file. The directory's path is kept as the bytes in which the
/// platform writes it, so that any path can be named.
#[derive(Debug)]
pub struct Datastore {
    base_path: Vec<u8>,
}

impl View for Datastore {
    type V = Seq<u8>;

    /// The path of the data directory.
    closed spec fn view(&self) -> Seq<u8> {
        self.base_path@
    }
}

impl Datastore {
    /// The datastore in the directory `path`.
    pub fn new(path: &[u8]) -> (store: Datastore)
        ensures
            store@ == path@,
    {
        Datastore { base_path: slice_to_vec(path) }
    }

    /// The path of the data directory.
    pub fn base_path(&self) -> (path: &[u8])
        ensures
            path@ == self@,
    {
        self.base_path.as_slice()
    }

    /// The name of the state file within the data directory.
    pub fn state_file_name(&self) -> (name: &'static str)
        ensures
            name == STATE_FILE_NAME,
    {
        STATE_FILE_NAME
    }
}

} // verus!
