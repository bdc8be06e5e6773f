//! Where the source code of a program is read from.
use vstd::prelude::*;
use vstd::string::StringExecFns;

verus! {

/// With this the name of a file system begins that holds files of the user's own, as
/// opposed to library files.
pub const VIRTUAL_LOCAL_PATH_PREFIX: &'static str = "vfs_local_";

/// The path `path` as seen from `base`: an absolute path stays what it is, any other
/// goes behind `base` with one separator between them.
///
/// This is the rule of systems on which `/` separates the parts of a path and a path
/// that begins with it is absolute. It is applied on every machine. Systems with
/// another separator, or with drives, join the paths of their files otherwise: there
/// `C:\go` is absolute, while here it goes behind `base`.
pub open spec fn joined(base: Seq<char>, path: Seq<char>) -> Seq<char> {
    if path.len() > 0 && path[0] == '/' {
        path
    } else if base.len() > 0 && base.last() != '/' {
        base + seq!['/'] + path
    } else {
        base + path
    }
}

/// Joins two paths as systems do on which `/` separates the parts, see [`joined`].
pub fn join_path(base: &str, path: &str) -> (out: String)
    ensures
        out@ == joined(base@, path@),
{
    let path_len: usize = path.unicode_len();
    if path_len > 0 && path.get_char(0) == '/' {
        return String::from_str(path);
    }
    let mut out = String::from_str(base);
    let base_len: usize = base.unicode_len();
    if base_len > 0 && base.get_char(base_len - 1) != '/' {
        out.append("/");
        proof {
            reveal_strlit("/");
            assert("/"@ =~= seq!['/']);
        }
    }
    out.append(path);
    out
}

/// Why a file could not be read.
#[derive(Clone, Debug)]
pub struct ReadError {
    pub message: String,
}

/// A file system to read source files from. Its users bring their own.
pub trait VirtualFs {
    fn read_file(&self, path: &str) -> Result<String, ReadError>;

    fn read_dir(&self, path: &str) -> Result<Vec<String>, ReadError>;

    fn is_file(&self, path: &str) -> bool;

    fn is_dir(&self, path: &str) -> bool;

    fn canonicalize_path(&self, path: &str) -> Result<String, ReadError>;
}

/// The kinds of file systems that come with the engine.
#[derive(Clone, Debug)]
pub enum Vfs {
    /// The files of the machine.
    Fs,
    /// Files with their contents.
    Files(Vec<(String, String)>),
    /// The files of a zip archive.
    Zip(Vec<u8>),
}

/// One file system, or several that are told apart by the first part of a path.
#[derive(Clone, Debug)]
pub enum VfsTree {
    Single(Vfs),
    Compound(Vec<(String, Vfs)>),
}

/// Whether a file system consists of two others under the given names.
pub open spec fn is_compound_of(
    tree: VfsTree,
    first: (Seq<char>, Vfs),
    second: (Seq<char>, Vfs),
) -> bool {
    tree matches VfsTree::Compound(parts) && parts.len() == 2 && parts[0].0@ == first.0
        && parts[0].1 == first.1 && parts[1].0@ == second.0 && parts[1].1 == second.1
}

/// Whether a file system holds just one file.
pub open spec fn holds_file(vfs: Vfs, name: Seq<char>, content: Seq<char>) -> bool {
    vfs matches Vfs::Files(files) && files.len() == 1 && files[0].0@ == name && files[0].1@
        == content
}

/// Reads source files.
#[derive(Clone, Debug)]
pub struct SourceReader<V> {
    /// Where files are imported from that are not local: the library.
    base_dir: Option<String>,
    working_dir: String,
    vfs: V,
}

impl<V> SourceReader<V> {
    /// Where library files are.
    pub closed spec fn base(self) -> Option<Seq<char>> {
        match self.base_dir {
            Some(dir) => Some(dir@),
            None => None,
        }
    }

    /// Where the user's own files are.
    pub closed spec fn working(self) -> Seq<char> {
        self.working_dir@
    }

    /// The file system that files are read from.
    pub closed spec fn fs(self) -> V {
        self.vfs
    }

    pub fn new(base_dir: Option<String>, working_dir: String, vfs: V) -> (reader: SourceReader<V>)
        ensures
            base_dir matches Some(dir) ==> reader.base() == Some(dir@),
            base_dir is None ==> reader.base() is None,
            reader.working() == working_dir@,
            reader.fs() == vfs,
    {
        SourceReader { base_dir, working_dir, vfs }
    }

    pub fn working_dir(&self) -> (dir: &str)
        ensures
            dir@ == self.working(),
    {
        self.working_dir.as_str()
    }

    pub fn base_dir(&self) -> (dir: Option<&str>)
        ensures
            dir is Some <==> self.base() is Some,
            dir matches Some(d) ==> self.base() == Some(d@),
    {
        match &self.base_dir {
            Some(dir) => Some(dir.as_str()),
            None => None,
        }
    }

    /// The file system that files are read from.
    pub fn vfs(&self) -> (vfs: &V)
        ensures
            *vfs == self.fs(),
    {
        &self.vfs
    }

    /// The same directories with another file system.
    pub fn with_vfs<W>(self, vfs: W) -> (reader: SourceReader<W>)
        ensures
            reader.base() == self.base(),
            reader.working() == self.working(),
            reader.fs() == vfs,
    {
        SourceReader { base_dir: self.base_dir, working_dir: self.working_dir, vfs }
    }
}

impl SourceReader<VfsTree> {
    /// A reader of the files of the machine.
    pub fn local_fs(base_dir: String, working_dir: String) -> (reader: SourceReader<VfsTree>)
        ensures
            reader.base() == Some(base_dir@),
            reader.working() == working_dir@,
            reader.fs() == VfsTree::Single(Vfs::Fs),
    {
        SourceReader::new(Some(base_dir), working_dir, VfsTree::Single(Vfs::Fs))
    }

    /// A reader of library files of the machine and of a program in a string. Returns
    /// the reader and the path of the virtual file that holds the string. `base_dir` is
    /// joined to the name of its file system with `/`, see [`joined`].
    pub fn fs_lib_and_string(base_dir: String, source: String) -> (out: (
        SourceReader<VfsTree>,
        String,
    ))
        ensures
            out.0.base() == Some(joined("vfs_fs"@, base_dir@)),
            out.0.working() == "vfs_local_"@ + "map"@ + "/"@,
            out.0.fs() matches VfsTree::Compound(parts) && holds_file(
                parts[1].1,
                "temp_file.gos"@,
                source@,
            ) && is_compound_of(
                out.0.fs(),
                ("vfs_fs"@, Vfs::Fs),
                ("vfs_local_"@ + "map"@, parts[1].1),
            ),
            out.1@ == "./"@ + "temp_file.gos"@,
    {
        let vfs_fs_name: &str = "vfs_fs";
        lib_and_string(vfs_fs_name, Vfs::Fs, base_dir, source)
    }

    /// A reader of library files of a zip archive and of a program in a string. Returns
    /// the reader and the path of the virtual file that holds the string. `base_dir` is
    /// joined to the name of its file system with `/`, see [`joined`].
    pub fn zip_lib_and_string(archive: Vec<u8>, base_dir: String, source: String) -> (out: (
        SourceReader<VfsTree>,
        String,
    ))
        ensures
            out.0.base() == Some(joined("vfs_zip"@, base_dir@)),
            out.0.working() == "vfs_local_"@ + "map"@ + "/"@,
            out.0.fs() matches VfsTree::Compound(parts) && holds_file(
                parts[1].1,
                "temp_file.gos"@,
                source@,
            ) && is_compound_of(
                out.0.fs(),
                ("vfs_zip"@, Vfs::Zip(archive)),
                ("vfs_local_"@ + "map"@, parts[1].1),
            ),
            out.1@ == "./"@ + "temp_file.gos"@,
    {
        let vfs_zip_name: &str = "vfs_zip";
        lib_and_string(vfs_zip_name, Vfs::Zip(archive), base_dir, source)
    }

    /// A reader of library files of a zip archive and of the user's own files of the
    /// machine. Both directories are joined to the names of their file systems with
    /// `/`, see [`joined`].
    pub fn zip_lib_and_local_fs(archive: Vec<u8>, base_dir: String, working_dir: String) -> (
        reader: SourceReader<VfsTree>)
        ensures
            reader.base() == Some(joined("vfs_zip"@, base_dir@)),
            reader.working() == joined("vfs_local_"@ + "local_fs"@, working_dir@),
            is_compound_of(
                reader.fs(),
                ("vfs_local_"@ + "local_fs"@, Vfs::Fs),
                ("vfs_zip"@, Vfs::Zip(archive)),
            ),
    {
        let vfs_fs_name: String = local_name("local_fs");
        let vfs_zip_name: &str = "vfs_zip";
        let base = join_path(vfs_zip_name, base_dir.as_str());
        let working = join_path(vfs_fs_name.as_str(), working_dir.as_str());
        let mut parts: Vec<(String, Vfs)> = Vec::new();
        parts.push((vfs_fs_name, Vfs::Fs));
        parts.push((String::from_str(vfs_zip_name), Vfs::Zip(archive)));
        SourceReader::new(Some(base), working, VfsTree::Compound(parts))
    }
}

/// The name of a file system that holds files of the user's own.
fn local_name(name: &str) -> (out: String)
    ensures
        out@ == "vfs_local_"@ + name@,
{
    let mut out = String::from_str(VIRTUAL_LOCAL_PATH_PREFIX);
    out.append(name);
    out
}

/// A reader of library files of a file system and of a program in a string.
fn lib_and_string(lib_name: &str, lib: Vfs, base_dir: String, source: String) -> (out: (
    SourceReader<VfsTree>,
    String,
))
    ensures
        out.0.base() == Some(joined(lib_name@, base_dir@)),
        out.0.working() == "vfs_local_"@ + "map"@ + "/"@,
        out.0.fs() matches VfsTree::Compound(parts) && holds_file(
            parts[1].1,
            "temp_file.gos"@,
            source@,
        ) && is_compound_of(
            out.0.fs(),
            (lib_name@, lib),
            ("vfs_local_"@ + "map"@, parts[1].1),
        ),
        out.1@ == "./"@ + "temp_file.gos"@,
{
    let temp_file_name: &str = "temp_file.gos";
    let vfs_map_name: String = local_name("map");
    let mut working = String::from_str(vfs_map_name.as_str());
    working.append("/");
    let mut files: Vec<(String, String)> = Vec::new();
    files.push((String::from_str(temp_file_name), source));
    let mut parts: Vec<(String, Vfs)> = Vec::new();
    parts.push((String::from_str(lib_name), lib));
    parts.push((vfs_map_name, Vfs::Files(files)));
    let base = join_path(lib_name, base_dir.as_str());
    let mut path = String::from_str("./");
    path.append(temp_file_name);
    (SourceReader::new(Some(base), working, VfsTree::Compound(parts)), path)
}

impl<V: VirtualFs> SourceReader<V> {
    pub fn read_file(&self, path: &str) -> (content: Result<String, ReadError>)
        ensures
            call_ensures(V::read_file, (&self.fs(), path), content),
    {
        self.vfs.read_file(path)
    }

    pub fn read_dir(&self, path: &str) -> (paths: Result<Vec<String>, ReadError>)
        ensures
            call_ensures(V::read_dir, (&self.fs(), path), paths),
    {
        self.vfs.read_dir(path)
    }

    pub fn is_file(&self, path: &str) -> (is: bool)
        ensures
            call_ensures(V::is_file, (&self.fs(), path), is),
    {
        self.vfs.is_file(path)
    }

    pub fn is_dir(&self, path: &str) -> (is: bool)
        ensures
            call_ensures(V::is_dir, (&self.fs(), path), is),
    {
        self.vfs.is_dir(path)
    }

    pub fn canonicalize_path(&self, path: &str) -> (out: Result<String, ReadError>)
        ensures
            call_ensures(V::canonicalize_path, (&self.fs(), path), out),
    {
        self.vfs.canonicalize_path(path)
    }
}

/// How a program is to be run. Streams are known by number.
#[derive(Clone, Copy, Debug)]
pub struct Config {
    /// Whether the standard library is there, which uses the streams.
    pub go_std: bool,
    pub std_in: Option<u64>,
    pub std_out: Option<u64>,
    pub std_err: Option<u64>,
    pub trace_parser: bool,
    pub trace_checker: bool,
}

/// What an engine is told to do.
pub enum EngineStep<'a, V> {
    /// To use these streams.
    SetStdIo(Option<u64>, Option<u64>, Option<u64>),
    /// To run the program at a path, with traces of parsing and of checking types.
    RunSource(bool, bool, &'a SourceReader<V>, &'a str),
}

/// What a new engine is told to do to run the program at `path`.
pub fn run<'a, V>(config: Config, source: &'a SourceReader<V>, path: &'a str) -> (steps: Vec<
    EngineStep<'a, V>,
>)
    ensures
        steps@ == (if config.go_std {
            seq![EngineStep::SetStdIo(config.std_in, config.std_out, config.std_err)]
        } else {
            seq![]
        }).push(
            EngineStep::RunSource(config.trace_parser, config.trace_checker, source, path),
        ),
{
    let mut steps: Vec<EngineStep<'a, V>> = Vec::new();
    if config.go_std {
        steps.push(EngineStep::SetStdIo(config.std_in, config.std_out, config.std_err));
    }
    steps.push(EngineStep::RunSource(config.trace_parser, config.trace_checker, source, path));
    steps
}

/// A path that is not absolute stays below the file system that it is joined to, so
/// that what is joined to a local one is recognized as local, and what is joined to a
/// library is not.
pub proof fn law_joined_paths_stay_below(base: Seq<char>, path: Seq<char>)
    requires
        path.len() == 0 || path[0] != '/',
    ensures
        base.is_prefix_of(joined(base, path)),
        "vfs_local_"@.is_prefix_of(base) ==> "vfs_local_"@.is_prefix_of(joined(base, path)),
        !"vfs_local_"@.is_prefix_of(joined("vfs_fs"@, path)),
        !"vfs_local_"@.is_prefix_of(joined("vfs_zip"@, path)),
{
    let out = joined(base, path);
    assert(out.subrange(0, base.len() as int) =~= base);
    let mark = "vfs_local_"@;
    if mark.is_prefix_of(base) {
        assert(mark =~= out.subrange(0, mark.len() as int));
    }
    reveal_strlit("vfs_local_");
    reveal_strlit("vfs_fs");
    reveal_strlit("vfs_zip");
    let fs = joined("vfs_fs"@, path);
    let zip = joined("vfs_zip"@, path);
    assert(fs[4] == 'f' && zip[4] == 'z' && mark[4] == 'l');
    if mark.is_prefix_of(fs) {
        assert(fs.subrange(0, mark.len() as int)[4] == 'l');
    }
    if mark.is_prefix_of(zip) {
        assert(zip.subrange(0, mark.len() as int)[4] == 'l');
    }
}

/// An absolute path stays what it is. Any other goes behind the path that it is joined to, with a
/// separator between them that is added only if there is none.
pub proof fn law_paths_are_joined_with_one_separator(base: Seq<char>, path: Seq<char>)
    ensures
        path.len() > 0 && path[0] == '/' ==> joined(base, path) == path,
        base.len() > 0 && base.last() != '/' && (path.len() == 0 || path[0] != '/') ==> joined(
            base,
            path,
        ) == base + "/"@ + path,
        base.len() > 0 && base.last() == '/' && (path.len() == 0 || path[0] != '/') ==> joined(
            base,
            path,
        ) == base + path,
        path.len() > 0 ==> joined(Seq::empty(), path) == path,
{
    reveal_strlit("/");
    assert("/"@ =~= seq!['/']);
    if path.len() > 0 {
        assert(Seq::<char>::empty() + path =~= path);
    }
}

/// A file system that consists of two has these two under their names, in this order and no other.
pub proof fn law_what_a_compound_consists_of(
    tree: VfsTree,
    first: (Seq<char>, Vfs),
    second: (Seq<char>, Vfs),
)
    requires
        is_compound_of(tree, first, second),
    ensures
        tree matches VfsTree::Compound(parts) && parts.len() == 2 && parts[0].0@ == first.0
            && parts[0].1 == first.1 && parts[1].0@ == second.0 && parts[1].1 == second.1,
{
}

/// A file system that holds one file has that file under its name, with its content, and no other.
pub proof fn law_what_a_single_file_is(vfs: Vfs, name: Seq<char>, content: Seq<char>)
    requires
        holds_file(vfs, name, content),
    ensures
        vfs matches Vfs::Files(files) && files.len() == 1 && files[0].0@ == name && files[0].1@
            == content,
{
}

} // verus!
