//! The sftp subsystem through which players download the challenge files:
//! the session's bookkeeping and the answers it gives. Reading the files
//! themselves is left to the caller.
use vstd::prelude::*;
use crate::database::{key_login_outcome, Database, User, UserRow};
use crate::text::push_char;

verus! {

/// The status codes the session answers with.
#[derive(Clone, Copy, Debug, PartialEq, Eq, Structural)]
pub enum SftpStatus {
    Done,
    Eof,
    NoSuchFile,
    Failure,
    ConnectionLost,
    OpUnsupported,
}

/// What the session remembers between requests.
#[derive(Clone, Copy, Debug, PartialEq, Eq, Structural)]
pub struct SftpSession {
    /// The protocol version the client announced, once it has.
    pub version: Option<u32>,
    /// The listing of the root directory has been sent since it was opened.
    pub root_dir_read_done: bool,
    /// The open file has been sent since it was opened.
    pub file_read_done: bool,
}

/// The answer to a read request.
#[derive(Clone, Copy, Debug, PartialEq, Eq, Structural)]
pub enum ReadStep {
    /// Send the whole file.
    SendFile,
    /// The file was sent already.
    Eof,
}

/// The answer to a directory-read request.
#[derive(Clone, Copy, Debug, PartialEq, Eq, Structural)]
pub enum ReaddirStep {
    /// Send the list of files.
    SendListing,
    /// The listing was sent already, or the directory is not the root.
    Eof,
}

/// The attributes the session reports for a file.
#[derive(Clone, Copy, Debug, PartialEq, Eq, Structural)]
pub enum FileKind {
    /// Marked as a regular file that is neither a directory nor a link.
    Regular,
    /// Default attributes.
    Unmarked,
}

impl SftpSession {
    /// A fresh session.
    pub fn new() -> (s: SftpSession)
        ensures
            s.version is None,
            !s.root_dir_read_done,
            !s.file_read_done,
    {
        SftpSession { version: None, root_dir_read_done: false, file_read_done: false }
    }

    /// Any request the session does not implement.
    pub fn unimplemented(&self) -> (r: SftpStatus)
        ensures
            r == SftpStatus::OpUnsupported,
    {
        SftpStatus::OpUnsupported
    }

    /// The client's init: accepted once; a second one loses the connection.
    pub fn init(&mut self, version: u32) -> (r: Result<(), SftpStatus>)
        ensures
            old(self).version is Some ==> r == Err::<(), SftpStatus>(SftpStatus::ConnectionLost) && *final(self) == *old(self),
            old(self).version is None ==> r == Ok::<(), SftpStatus>(())
                && *final(self) == (SftpSession { version: Some(version), ..*old(self) }),
    {
        if self.version.is_some() {
            return Err(SftpStatus::ConnectionLost);
        }
        self.version = Some(version);
        Ok(())
    }

    /// Attributes of a path (`stat` and `lstat`): a regular file when the
    /// path is a file in the challenge folder, else there is no such file.
    pub fn stat(&self, is_file: bool) -> (r: Result<FileKind, SftpStatus>)
        ensures
            is_file ==> r == Ok::<FileKind, SftpStatus>(FileKind::Regular),
            !is_file ==> r == Err::<FileKind, SftpStatus>(SftpStatus::NoSuchFile),
    {
        if is_file { Ok(FileKind::Regular) } else { Err(SftpStatus::NoSuchFile) }
    }

    /// Attributes of an open handle (`fstat`): default attributes when it
    /// names a file in the challenge folder.
    pub fn fstat(&self, is_file: bool) -> (r: Result<FileKind, SftpStatus>)
        ensures
            is_file ==> r == Ok::<FileKind, SftpStatus>(FileKind::Unmarked),
            !is_file ==> r == Err::<FileKind, SftpStatus>(SftpStatus::NoSuchFile),
    {
        if is_file { Ok(FileKind::Unmarked) } else { Err(SftpStatus::NoSuchFile) }
    }

    /// Closing a handle always succeeds.
    pub fn close(&mut self) -> (r: SftpStatus)
        ensures
            r == SftpStatus::Done,
            *final(self) == *old(self),
    {
        SftpStatus::Done
    }

    /// Opening a file: only files of the challenge folder open; the file is
    /// then sent anew on the next read.
    pub fn open(&mut self, is_file: bool) -> (r: Result<(), SftpStatus>)
        ensures
            is_file ==> r == Ok::<(), SftpStatus>(()) && *final(self) == (SftpSession { file_read_done: false, ..*old(self) }),
            !is_file ==> r == Err::<(), SftpStatus>(SftpStatus::NoSuchFile) && *final(self) == *old(self),
    {
        if is_file {
            self.file_read_done = false;
            Ok(())
        } else {
            Err(SftpStatus::NoSuchFile)
        }
    }

    /// Reading the open file: the whole file goes in the first read, later
    /// reads get end-of-file.
    pub fn read(&mut self) -> (r: ReadStep)
        ensures
            !old(self).file_read_done ==> r == ReadStep::SendFile,
            old(self).file_read_done ==> r == ReadStep::Eof,
            *final(self) == (SftpSession { file_read_done: true, ..*old(self) }),
    {
        if !self.file_read_done {
            self.file_read_done = true;
            return ReadStep::SendFile;
        }
        ReadStep::Eof
    }

    /// Opening a directory: its listing is sent anew on the next read.
    pub fn opendir(&mut self)
        ensures
            *final(self) == (SftpSession { root_dir_read_done: false, ..*old(self) }),
    {
        self.root_dir_read_done = false;
    }

    /// Reading a directory: only the root is listed, once per opening.
    pub fn readdir(&mut self, handle: &str) -> (r: ReaddirStep)
        ensures
            handle@ == "/"@ && !old(self).root_dir_read_done ==> r == ReaddirStep::SendListing
                && *final(self) == (SftpSession { root_dir_read_done: true, ..*old(self) }),
            !(handle@ == "/"@ && !old(self).root_dir_read_done) ==> r == ReaddirStep::Eof && *final(self) == *old(self),
    {
        let is_root = handle.to_owned() == "/".to_owned();
        if is_root && !self.root_dir_read_done {
            self.root_dir_read_done = true;
            return ReaddirStep::SendListing;
        }
        ReaddirStep::Eof
    }
}

/// The client's key belongs to a registered user.
pub open spec fn key_known(users: Seq<UserRow>, key: Option<&String>) -> bool {
    match key {
        Some(k) => key_login_outcome(users, k@) is Some,
        None => false,
    }
}

/// Whether a subsystem request is granted: only the sftp subsystem, and only
/// to a client whose public key belongs to a registered user, so that a
/// password-protected CTF keeps its files to its players.
pub fn subsystem_granted(db: &Database, name: &str, key: Option<&String>) -> (r: bool)
    ensures
        r == (name@ == "sftp"@ && key_known(db.users@, key)),
{
    if name.to_owned() != "sftp".to_owned() {
        return false;
    }
    match key {
        Some(k) => User::login_with_key(db, k).is_some(),
        None => false,
    }
}

/// `folder`'s parts begin `path`'s parts.
pub open spec fn parts_prefix(folder: Seq<Vec<u8>>, path: Seq<Vec<u8>>) -> bool {
    folder.len() <= path.len() && forall|i: int| 0 <= i < folder.len() ==> (#[trigger] folder[i])@ == path[i]@
}

/// Whether a requested file lies inside the challenge folder, given the parts
/// (the bytes of each component) of both canonical paths: the folder's parts
/// must begin the file's, so no `..` or link leads a client out of it.
pub fn inside_folder(folder: &Vec<Vec<u8>>, path: &Vec<Vec<u8>>) -> (r: bool)
    ensures
        r == parts_prefix(folder@, path@),
{
    if folder.len() > path.len() {
        return false;
    }
    let mut i: usize = 0;
    while i < folder.len()
        invariant
            i <= folder@.len(),
            folder@.len() <= path@.len(),
            forall|k: int| 0 <= k < i ==> (#[trigger] folder@[k])@ == path@[k]@,
        decreases folder.len() - i,
    {
        let a = &folder[i];
        let b = &path[i];
        if a.len() != b.len() {
            assert((folder@[i as int])@.len() != path@[i as int]@.len());
            return false;
        }
        let mut j: usize = 0;
        while j < a.len()
            invariant
                j <= a@.len(),
                a@.len() == b@.len(),
                i < folder@.len(),
                folder@.len() <= path@.len(),
                *a == folder@[i as int],
                *b == path@[i as int],
                forall|k: int| 0 <= k < i ==> (#[trigger] folder@[k])@ == path@[k]@,
                forall|m: int| 0 <= m < j ==> a@[m] == b@[m],
            decreases a.len() - j,
        {
            if a[j] != b[j] {
                assert((folder@[i as int])@[j as int] != path@[i as int]@[j as int]);
                return false;
            }
            j = j + 1;
        }
        assert(a@ =~= b@);
        i = i + 1;
    }
    true
}

/// `path` with every leading `/` removed.
pub open spec fn without_leading_slashes(path: Seq<char>) -> Seq<char>
    decreases path.len(),
{
    if path.len() > 0 && path[0] == '/' {
        without_leading_slashes(path.drop_first())
    } else {
        path
    }
}

/// A path without its leading slashes does not start with one, so it is
/// always taken relative to the challenge folder.
pub proof fn lemma_no_leading_slash(path: Seq<char>)
    ensures
        without_leading_slashes(path).len() > 0 ==> without_leading_slashes(path)[0] != '/',
        without_leading_slashes(path).len() <= path.len(),
    decreases path.len(),
{
    if path.len() > 0 && path[0] == '/' {
        lemma_no_leading_slash(path.drop_first());
    }
}

/// The part of a requested path that is looked up in the challenge folder:
/// the path without its leading slashes.
pub fn relative_path(path: &str) -> (r: String)
    ensures
        r@ == without_leading_slashes(path@),
        r@.len() > 0 ==> r@[0] != '/',
{
    proof { lemma_no_leading_slash(path@); }
    let mut out = String::new();
    let mut skipping = true;
    assert(path@.skip(0) =~= path@);
    for c in it: path.chars()
        invariant
            it.seq() == path@,
            skipping ==> out@.len() == 0 && without_leading_slashes(path@) == without_leading_slashes(path@.skip(it.index() as int)),
            !skipping ==> without_leading_slashes(path@) == out@ + path@.skip(it.index() as int),
    {
        let ghost k = it.index() as int;
        proof {
            assert(path@.skip(k).drop_first() =~= path@.skip(k + 1));
            assert(path@.skip(k)[0] == c);
        }
        if skipping && c == '/' {
        } else {
            if skipping {
                assert(without_leading_slashes(path@.skip(k)) == path@.skip(k));
                assert(path@.skip(k) =~= Seq::<char>::empty() + seq![c] + path@.skip(k + 1));
            }
            skipping = false;
            push_char(&mut out, c);
            assert((out@.drop_last() + seq![c]) + path@.skip(k + 1) =~= out@.drop_last() + path@.skip(k));
        }
    }
    proof {
        assert(path@.skip(path@.len() as int) =~= Seq::<char>::empty());
        if skipping {
            assert(out@ =~= without_leading_slashes(path@));
        } else {
            assert(out@ + Seq::<char>::empty() =~= out@);
        }
    }
    out
}

} // verus!
