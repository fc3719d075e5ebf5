use vstd::prelude::*;
use vstd::string::*;

verus! {

/// The two base directories, as the contracts see them.
pub struct LayoutModel {
    pub full_dir: Seq<char>,
    pub thumb_dir: Seq<char>,
}

/// Where images are stored: one directory for the full-size files, one for
/// the thumbnails. A file's place is a function of its name alone.
pub struct StorageLayout {
    pub full_dir: String,
    pub thumb_dir: String,
}

impl View for StorageLayout {
    type V = LayoutModel;

    open spec fn view(&self) -> LayoutModel {
        LayoutModel { full_dir: self.full_dir@, thumb_dir: self.thumb_dir@ }
    }
}

/// The path of the file called `name` in `dir`: the two joined by `/`.
pub open spec fn path_in(dir: Seq<char>, name: Seq<char>) -> Seq<char> {
    dir + seq!['/'] + name
}

/// The layout the service runs with.
pub open spec fn standard_layout() -> LayoutModel {
    LayoutModel { full_dir: "storage/image/fullsize"@, thumb_dir: "storage/image/thumbnail"@ }
}

fn join_path(dir: &String, name: &str) -> (path: String)
    ensures
        path@ == path_in(dir@, name@),
{
    let mut path = dir.clone();
    path.push('/');
    path.append(name);
    assert(path@ =~= path_in(dir@, name@));
    path
}

impl StorageLayout {
    /// A layout over the given directories.
    pub fn new(full_dir: String, thumb_dir: String) -> (layout: StorageLayout)
        ensures
            layout@ == (LayoutModel { full_dir: full_dir@, thumb_dir: thumb_dir@ }),
    {
        StorageLayout { full_dir, thumb_dir }
    }

    /// The layout the service runs with.
    pub fn standard() -> (layout: StorageLayout)
        ensures
            layout@ == standard_layout(),
    {
        StorageLayout {
            full_dir: "storage/image/fullsize".to_owned(),
            thumb_dir: "storage/image/thumbnail".to_owned(),
        }
    }

    /// Where the full-size file called `name` is stored.
    pub fn full_path(&self, name: &str) -> (path: String)
        ensures
            path@ == path_in(self@.full_dir, name@),
    {
        join_path(&self.full_dir, name)
    }

    /// Where the thumbnail of the file called `name` is stored.
    pub fn thumb_path(&self, name: &str) -> (path: String)
        ensures
            path@ == path_in(self@.thumb_dir, name@),
    {
        join_path(&self.thumb_dir, name)
    }

    /// A copy of the layout.
    pub fn clone(&self) -> (layout: StorageLayout)
        ensures
            layout@ == self@,
    {
        StorageLayout { full_dir: self.full_dir.clone(), thumb_dir: self.thumb_dir.clone() }
    }
}

/// In one directory, two names have the same path only if they are the
/// same name: storing under one name never touches the file of another,
/// and storing again under a name goes to the file stored before.
pub proof fn lemma_path_determines_name(dir: Seq<char>, first: Seq<char>, second: Seq<char>)
    ensures
        path_in(dir, first) == path_in(dir, second) <==> first == second,
{
    if path_in(dir, first) == path_in(dir, second) {
        let start = dir.len() + 1;
        assert(first =~= path_in(dir, first).subrange(start as int, path_in(dir, first).len() as int));
        assert(second =~= path_in(dir, second).subrange(
            start as int,
            path_in(dir, second).len() as int,
        ));
    }
}

} // verus!
