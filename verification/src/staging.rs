use vstd::prelude::*;
use vstd::string::StrSliceExecFns;
use vstd::string::StringExecFns;
use crate::text::str_eq;

verus! {

/// Length of `s` once every trailing `/` is dropped.
pub open spec fn trimmed_path_len(s: Seq<char>) -> int
    decreases s.len(),
{
    if s.len() > 0 && s.last() == '/' {
        trimmed_path_len(s.drop_last())
    } else {
        s.len() as int
    }
}

/// `cut` is where the base name of a `/`-separated path starts: right after
/// the last separator, or at the front when there is none.
pub open spec fn basename_split_at(s: Seq<char>, cut: int) -> bool {
    &&& 0 <= cut <= s.len()
    &&& (cut == 0 || s[cut - 1] == '/')
    &&& forall|j: int| cut <= j < s.len() ==> s[j] != '/'
}

/// The base name of the destination path, used to name the staging file for
/// diagnostics: the last `/`-separated component once trailing separators
/// are dropped. `None` when nothing usable is left — an empty component, or
/// the relative components `.` and `..` — and a generated name must be used
/// instead. (Close to, not identical with, the platform's own path
/// normalization.)
pub fn file_name_hint(path: &str) -> (r: Option<String>)
    ensures
        exists|cut: int|
            #[trigger] basename_split_at(path@.subrange(0, trimmed_path_len(path@)), cut) && {
                let trimmed = path@.subrange(0, trimmed_path_len(path@));
                let hint = trimmed.subrange(cut, trimmed.len() as int);
                if hint.len() == 0 || hint == "."@ || hint == ".."@ {
                    r is None
                } else {
                    r matches Some(h) && h@ == hint
                }
            },
{
    let n = path.unicode_len();
    let mut end: usize = n;
    proof {
        assert(path@.subrange(0, n as int) =~= path@);
    }
    while end > 0 && path.get_char(end - 1) == '/'
        invariant
            end <= n,
            n == path@.len(),
            trimmed_path_len(path@) == trimmed_path_len(path@.subrange(0, end as int)),
        decreases end,
    {
        proof {
            let pre = path@.subrange(0, end as int);
            assert(pre.drop_last() =~= path@.subrange(0, end - 1));
        }
        end = end - 1;
    }
    proof {
        let pre = path@.subrange(0, end as int);
        if end > 0 {
            assert(pre.last() != '/');
        }
        assert(trimmed_path_len(pre) == end);
    }
    let ghost trimmed = path@.subrange(0, end as int);
    let mut i: usize = 0;
    let mut cut: usize = 0;
    while i < end
        invariant
            i <= end,
            end <= n,
            n == path@.len(),
            cut <= i,
            cut == 0 || path@[cut - 1] == '/',
            forall|j: int| cut <= j < i ==> path@[j] != '/',
        decreases end - i,
    {
        if path.get_char(i) == '/' {
            cut = i + 1;
        }
        i = i + 1;
    }
    proof {
        assert(forall|j: int| 0 <= j < end ==> trimmed[j] == path@[j]);
        assert(basename_split_at(trimmed, cut as int));
    }
    if cut == end {
        return None;
    }
    let hint = path.substring_char(cut, end);
    proof {
        assert(hint@ =~= trimmed.subrange(cut as int, trimmed.len() as int));
    }
    if str_eq(hint, ".") || str_eq(hint, "..") {
        return None;
    }
    Some(hint.to_owned())
}

/// What the staged contents must look like after pre-sizing an empty file to
/// `offset` and then copying `chunks` in order: `offset` zero bytes followed
/// by the concatenation of the chunks.
pub open spec fn staged_content(offset: nat, chunks: Seq<Seq<u8>>) -> Seq<u8> {
    Seq::new(offset, |i: int| 0u8) + chunks.flatten()
}

/// Model of the per-upload staging file: an exclusively owned local object
/// that buffers the inbound byte stream before the remote submission, and is
/// released once the upload reaches a terminal state. The byte contents are
/// ghost state — the real file on disk holds them — while the executable
/// part carries only the length, so the model costs no memory beyond the
/// copy buffer. `removed` records whether the object has been released.
pub struct StagedFile {
    pub contents: Ghost<Seq<u8>>,
    pub byte_len: u64,
    pub removed: bool,
}

impl StagedFile {
    /// The recorded length always matches the recorded contents.
    pub open spec fn wf(&self) -> bool {
        self.byte_len == self.contents@.len()
    }

    /// A freshly allocated staging file: empty and present.
    pub fn create() -> (r: Self)
        ensures
            r.wf(),
            r.contents@ == Seq::<u8>::empty(),
            r.byte_len == 0,
            !r.removed,
    {
        StagedFile { contents: Ghost(Seq::empty()), byte_len: 0, removed: false }
    }

    /// Pre-size the file to exactly `n` bytes, as a filesystem `set_len`
    /// does: truncate when shrinking, zero-fill when growing. Used to place
    /// the write cursor at a resume offset before copying begins.
    pub fn set_len(&mut self, n: u64)
        requires
            !old(self).removed,
            old(self).wf(),
        ensures
            final(self).wf(),
            !final(self).removed,
            final(self).byte_len == n,
            n <= old(self).contents@.len() ==> final(self).contents@ == old(
                self,
            ).contents@.subrange(0, n as int),
            n > old(self).contents@.len() ==> final(self).contents@ == old(self).contents@
                + Seq::new((n - old(self).contents@.len()) as nat, |i: int| 0u8),
    {
        if n <= self.byte_len {
            self.contents = Ghost(self.contents@.subrange(0, n as int));
        } else {
            self.contents = Ghost(
                self.contents@ + Seq::new((n - self.byte_len) as nat, |i: int| 0u8),
            );
        }
        self.byte_len = n;
    }

    /// Append one buffer's worth of the inbound stream at the end of the
    /// file. The real copy goes to disk; the model adds the length and keeps
    /// the bytes as ghost contents.
    pub fn append(&mut self, chunk: &[u8])
        requires
            !old(self).removed,
            old(self).wf(),
            old(self).byte_len + chunk@.len() <= u64::MAX,
        ensures
            final(self).wf(),
            !final(self).removed,
            final(self).contents@ == old(self).contents@ + chunk@,
            final(self).byte_len == old(self).byte_len + chunk@.len(),
    {
        self.contents = Ghost(self.contents@ + chunk@);
        self.byte_len = self.byte_len + chunk.len() as u64;
    }

    /// Current length of the staged contents in bytes.
    pub fn len(&self) -> (n: u64)
        ensures
            n == self.byte_len,
    {
        self.byte_len
    }

    /// Release the staging file. The recorded contents and length are kept so
    /// that contracts can still speak of what was staged before removal.
    pub fn remove(&mut self)
        ensures
            final(self).removed,
            final(self).contents@ == old(self).contents@,
            final(self).byte_len == old(self).byte_len,
    {
        self.removed = true;
    }
}

} // verus!
