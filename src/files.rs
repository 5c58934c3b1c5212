use vstd::prelude::*;

verus! {

/// The final component of a path, as `std::path::Path::file_name` finds it
/// with the path separators of the platform the crate is built for.
pub uninterp spec fn file_name_of(path: Seq<char>) -> Option<Seq<char>>;

/// Position of the last `'.'` in `name`, or -1 where there is none.
pub open spec fn last_dot(name: Seq<char>) -> int
    decreases name.len(),
{
    if name.len() == 0 {
        -1
    } else if name.last() == '.' {
        name.len() - 1
    } else {
        last_dot(name.drop_last())
    }
}

/// A file name without its extension: the part before the last `'.'`, or the
/// whole name where it has no `'.'` but possibly a leading one.
pub open spec fn stem_of(name: Seq<char>) -> Seq<char> {
    let d = last_dot(name);
    if d <= 0 {
        name
    } else {
        name.subrange(0, d)
    }
}

/// The characters of an optional string.
pub open spec fn opt_view(o: Option<String>) -> Option<Seq<char>> {
    match o {
        Some(s) => Some(s@),
        None => None,
    }
}

/// Relies on `std::path::Path::file_name`: the final component of the path.
#[verifier::external_body]
fn path_file_name(path: &str) -> (r: Option<String>)
    ensures
        opt_view(r) == file_name_of(path@),
{
    match std::path::Path::new(path).file_name() {
        Some(name) => name.to_str().map(String::from),
        None => None,
    }
}

/// Position of the last `'.'` in `name`, or `None` where there is none.
fn find_last_dot(name: &str) -> (r: Option<usize>)
    ensures
        match r {
            Some(d) => d < name@.len() && d as int == last_dot(name@),
            None => last_dot(name@) == -1,
        },
{
    let mut i: usize = name.unicode_len();
    assert(name@.subrange(0, i as int) =~= name@);
    while i > 0
        invariant
            i <= name@.len(),
            last_dot(name@) == last_dot(name@.subrange(0, i as int)),
        decreases i,
    {
        let ghost prefix = name@.subrange(0, i as int);
        assert(prefix.drop_last() =~= name@.subrange(0, i as int - 1));
        if name.get_char(i - 1) == '.' {
            return Some(i - 1);
        }
        i = i - 1;
    }
    None
}

/// A file name without its extension, as `stem_of` describes it.
fn file_stem(name: &String) -> (r: String)
    ensures
        r@ == stem_of(name@),
{
    match find_last_dot(name.as_str()) {
        Some(d) if d > 0 => String::from_str(name.as_str().substring_char(0, d)),
        _ => name.clone(),
    }
}

/// A file that the loader reads, known by its path.
pub trait FileProperties {
    /// The characters of the file's path.
    spec fn path_chars(&self) -> Seq<char>;

    fn path(&self) -> (r: String)
        ensures
            r@ == self.path_chars(),
    ;

    /// The file's name with its extension.
    fn name_with_extension(&self) -> (r: Option<String>)
        ensures
            opt_view(r) == file_name_of(self.path_chars()),
    {
        let path = self.path();
        path_file_name(path.as_str())
    }

    /// The file's name without its extension.
    fn name(&self) -> (r: Option<String>)
        ensures
            opt_view(r) == match file_name_of(self.path_chars()) {
                Some(name) => Some(stem_of(name)),
                None => None,
            },
    {
        match self.name_with_extension() {
            Some(name) => Some(file_stem(&name)),
            None => None,
        }
    }
}

/// A delimited text table on disk.
#[derive(Clone, Debug)]
pub struct CsvFile {
    pub path: String,
    /// Whether the first row names the columns.
    pub header: bool,
    /// The field delimiter.
    pub sep: u8,
}

impl FileProperties for CsvFile {
    open spec fn path_chars(&self) -> Seq<char> {
        self.path@
    }

    fn path(&self) -> (r: String) {
        self.path.clone()
    }
}

/// A CAD drawing on disk.
#[derive(Clone, Debug)]
pub struct DxfFile {
    pub path: String,
}

impl FileProperties for DxfFile {
    open spec fn path_chars(&self) -> Seq<char> {
        self.path@
    }

    fn path(&self) -> (r: String) {
        self.path.clone()
    }
}

} // verus!
