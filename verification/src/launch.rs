//! Artifact handles and the runtime invocation they produce.
//!
//! A [`LauncherBinary`] names one candidate runnable artifact on disk.
//! Its structural test opens the candidate's bytes as an archive
//! container and asks whether it holds at least one entry; the working
//! candidate is turned into a [`JavaLauncher`], the ordered command
//! line for the runtime process.

use vstd::prelude::*;
use vstd::string::*;
use std::io::Cursor;

verus! {

/// Why a candidate artifact failed its structural test.
#[derive(Clone, Copy, Debug, PartialEq, Eq, Structural)]
pub enum ArchiveError {
    /// The container could not be read.
    Io,
    /// The bytes are not a readable archive container.
    Malformed,
}

/// What `zip::ZipArchive::new` finds in given bytes: the entry count of
/// a readable archive container, or nothing when the bytes are not one.
pub uninterp spec fn zip_entries_of(bytes: Seq<u8>) -> Option<usize>;

/// Relies on `zip::ZipArchive::new` over an in-memory reader: reading
/// the central directory of a readable archive yields its entry count
/// (`ZipArchive::len`), and fails on bytes that are no archive.
#[verifier::external_body]
fn archive_entry_count(bytes: &Vec<u8>) -> (r: Result<usize, ArchiveError>)
    ensures
        r is Ok <==> zip_entries_of(bytes@) is Some,
        r matches Ok(n) ==> zip_entries_of(bytes@) == Some(n),
{
    match zip::ZipArchive::new(Cursor::new(bytes.as_slice())) {
        Ok(archive) => Ok(archive.len()),
        Err(zip::result::ZipError::Io(_)) => Err(ArchiveError::Io),
        Err(_) => Err(ArchiveError::Malformed),
    }
}

/// Classifies an archive scan: a readable container is usable exactly
/// when it holds at least one entry; an unreadable one keeps its error.
pub fn classify_entries(scan: Result<usize, ArchiveError>) -> (r: Result<bool, ArchiveError>)
    ensures
        r == match scan {
            Ok(n) => Ok::<bool, ArchiveError>(n != 0),
            Err(e) => Err::<bool, ArchiveError>(e),
        },
{
    match scan {
        Ok(n) => Ok(n != 0),
        Err(e) => Err(e),
    }
}

/// One candidate runnable artifact on disk, identified by its path.
/// Equality is by path; validity is never cached, it is established on
/// demand by [`LauncherBinary::test_jar`].
pub struct LauncherBinary {
    pub path: String,
}

impl View for LauncherBinary {
    type V = Seq<char>;

    open spec fn view(&self) -> Seq<char> {
        self.path@
    }
}

impl PartialEq for LauncherBinary {
    fn eq(&self, other: &LauncherBinary) -> (r: bool) {
        self.path == other.path
    }
}

impl Eq for LauncherBinary {

}

impl vstd::std_specs::cmp::PartialEqSpecImpl for LauncherBinary {
    open spec fn obeys_eq_spec() -> bool {
        true
    }

    open spec fn eq_spec(&self, other: &LauncherBinary) -> bool {
        self@ == other@
    }
}

impl LauncherBinary {
    pub fn new(path: String) -> (b: LauncherBinary)
        ensures
            b@ == path@,
    {
        LauncherBinary { path }
    }

    pub fn path(&self) -> (p: &String)
        ensures
            p@ == self@,
    {
        &self.path
    }

    /// The structural test of the candidate's bytes: `Ok(true)` for a
    /// readable non-empty archive, `Ok(false)` for a readable empty
    /// one, an error for bytes that are no archive at all.
    pub fn test_jar(&self, contents: &Vec<u8>) -> (r: Result<bool, ArchiveError>)
        ensures
            zip_entries_of(contents@) matches Some(n) ==> r == Ok::<bool, ArchiveError>(n != 0),
            zip_entries_of(contents@) is None ==> r is Err,
    {
        classify_entries(archive_entry_count(contents))
    }

    /// Builds the runtime invocation for this artifact: pure data
    /// construction, no side effects.
    pub fn create_launcher(&self, args: Vec<String>) -> (l: JavaLauncher)
        ensures
            l@.opts == Seq::<Seq<char>>::empty(),
            l@.args == args.deep_view(),
            l@.jar_path == self@,
    {
        let l = JavaLauncher { opts: Vec::new(), args, jar_path: self.path.clone() };
        proof {
            assert(l.opts.deep_view() =~= Seq::<Seq<char>>::empty());
        }
        l
    }
}

/// Why the launched runtime did not come back successful.
#[derive(Debug, PartialEq, Eq)]
pub enum JavaError {
    /// The runtime process could not be started at all; carries the
    /// reported reason.
    IoError(String),
    /// The launched artifact ran and exited with this non-zero status
    /// code.
    ExitCode(i32),
    /// The launched artifact was terminated without a status code, by a
    /// signal or another abnormal end.
    Signal,
}

/// The ordered command line for one run of the runtime: options first,
/// then `-jar` with the artifact path, then the launch arguments.
pub struct JavaLauncher {
    pub opts: Vec<String>,
    pub args: Vec<String>,
    pub jar_path: String,
}

/// The mathematical value of a [`JavaLauncher`].
pub struct JavaLauncherView {
    pub opts: Seq<Seq<char>>,
    pub args: Seq<Seq<char>>,
    pub jar_path: Seq<char>,
}

impl View for JavaLauncher {
    type V = JavaLauncherView;

    open spec fn view(&self) -> JavaLauncherView {
        JavaLauncherView {
            opts: self.opts.deep_view(),
            args: self.args.deep_view(),
            jar_path: self.jar_path@,
        }
    }
}

impl JavaLauncher {
    /// The full argument list handed to the runtime executable, in
    /// order: the options, `-jar`, the artifact path, the arguments.
    pub fn command_line(&self) -> (argv: Vec<String>)
        ensures
            argv.deep_view() == self@.opts + seq!["-jar"@] + seq![self@.jar_path] + self@.args,
    {
        let ghost goal = self@.opts + seq!["-jar"@] + seq![self@.jar_path] + self@.args;
        let no = self.opts.len();
        let mut argv: Vec<String> = Vec::new();
        let mut i: usize = 0;
        while i < no
            invariant
                no == self.opts.len(),
                i <= no,
                argv@.len() == i,
                forall|j: int| 0 <= j < i ==> #[trigger] argv@[j]@ == self@.opts[j],
            decreases no - i,
        {
            argv.push(self.opts[i].clone());
            i = i + 1;
        }
        argv.push(String::from_str("-jar"));
        argv.push(self.jar_path.clone());
        let nk = self.args.len();
        let mut k: usize = 0;
        while k < nk
            invariant
                no == self.opts.len(),
                nk == self.args.len(),
                k <= nk,
                argv@.len() == no + 2 + k,
                forall|j: int| 0 <= j < no ==> #[trigger] argv@[j]@ == self@.opts[j],
                argv@[no as int]@ == "-jar"@,
                argv@[no as int + 1]@ == self@.jar_path,
                forall|j: int|
                    0 <= j < k ==> #[trigger] argv@[no + 2 + j]@ == self@.args[j],
            decreases nk - k,
        {
            argv.push(self.args[k].clone());
            k = k + 1;
        }
        proof {
            assert forall|j: int| 0 <= j < argv@.len() implies argv@[j].deep_view() == goal[j] by {
                if j < no {
                    assert(argv@[j]@ == self@.opts[j]);
                } else if j >= no + 2 {
                    assert(argv@[no + 2 + (j - no - 2)]@ == self@.args[j - no - 2]);
                }
            }
            assert(argv.deep_view() =~= goal);
        }
        argv
    }

    /// Classifies how the runtime process ended: exit status zero is
    /// success, a non-zero code and a termination without a code are
    /// distinct failures, never conflated.
    pub fn interpret_status(code: Option<i32>) -> (r: Result<(), JavaError>)
        ensures
            code matches Some(c) ==> (if c == 0 {
                r is Ok
            } else {
                r == Err::<(), JavaError>(JavaError::ExitCode(c))
            }),
            code is None ==> r == Err::<(), JavaError>(JavaError::Signal),
    {
        match code {
            Some(0) => Ok(()),
            Some(c) => Err(JavaError::ExitCode(c)),
            None => Err(JavaError::Signal),
        }
    }
}

} // verus!
