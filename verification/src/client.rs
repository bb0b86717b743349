use vstd::prelude::*;
use vstd::string::StrSliceExecFns;
use vstd::string::StringExecFns;
use crate::text::str_eq;

verus! {

/// State of a remote ingestion job as reported by the status lookup. An
/// unrecognized or missing status is read as `Pending` (forward-compatible
/// default), never as an error.
#[derive(Debug, Clone, Copy, PartialEq, Eq, Structural)]
pub enum JobState {
    Pending,
    Running,
    Succeeded,
    Failed,
    Cancelled,
}

/// Length of `s` once every trailing `/` is dropped.
pub open spec fn trimmed_base_len(s: Seq<char>) -> int
    decreases s.len(),
{
    if s.len() > 0 && s.last() == '/' {
        trimmed_base_len(s.drop_last())
    } else {
        s.len() as int
    }
}

/// `s` with every leading `"` dropped.
pub open spec fn drop_leading_quotes(s: Seq<char>) -> Seq<char>
    decreases s.len(),
{
    if s.len() > 0 && s[0] == '"' {
        drop_leading_quotes(s.subrange(1, s.len() as int))
    } else {
        s
    }
}

/// `s` with every trailing `"` dropped.
pub open spec fn drop_trailing_quotes(s: Seq<char>) -> Seq<char>
    decreases s.len(),
{
    if s.len() > 0 && s.last() == '"' {
        drop_trailing_quotes(s.drop_last())
    } else {
        s
    }
}

/// `s` with every leading and trailing `"` dropped, the shape in which the
/// submission endpoint wraps the returned job identifier.
pub open spec fn trim_quotes(s: Seq<char>) -> Seq<char> {
    drop_trailing_quotes(drop_leading_quotes(s))
}

/// The job state a reported status string stands for.
pub open spec fn job_state_of(s: Seq<char>) -> JobState {
    if s == "SUCCESS"@ {
        JobState::Succeeded
    } else if s == "FAILURE"@ {
        JobState::Failed
    } else if s == "REVOKED"@ {
        JobState::Cancelled
    } else if s == "STARTED"@ {
        JobState::Running
    } else {
        JobState::Pending
    }
}

proof fn lemma_drop_leading_quotes_at(s: Seq<char>, i: int)
    requires
        0 <= i <= s.len(),
        forall|k: int| 0 <= k < i ==> s[k] == '"',
        i == s.len() || s[i] != '"',
    ensures
        drop_leading_quotes(s) == s.subrange(i, s.len() as int),
    decreases i,
{
    if i == 0 {
        assert(s.subrange(0, s.len() as int) =~= s);
    } else {
        let t = s.subrange(1, s.len() as int);
        lemma_drop_leading_quotes_at(t, i - 1);
        assert(t.subrange(i - 1, t.len() as int) =~= s.subrange(i, s.len() as int));
    }
}

proof fn lemma_drop_trailing_quotes_at(s: Seq<char>, j: int)
    requires
        0 <= j <= s.len(),
        forall|k: int| j <= k < s.len() ==> s[k] == '"',
        j == 0 || s[j - 1] != '"',
    ensures
        drop_trailing_quotes(s) == s.subrange(0, j),
    decreases s.len() - j,
{
    if j == s.len() {
        assert(s.subrange(0, s.len() as int) =~= s);
    } else {
        let t = s.drop_last();
        lemma_drop_trailing_quotes_at(t, j);
        assert(t.subrange(0, j) =~= s.subrange(0, j));
    }
}

/// Stateless binding to the remote ingestion service: it knows the base
/// location and the API token, and computes the request lines the transport
/// needs. The HTTP transport itself lives outside the library; per-call
/// response interpretation is `parse_task_uuid` and `job_state_of_response`.
pub struct PaperlessClient {
    pub base_url: String,
    pub token: String,
}

impl PaperlessClient {
    /// Remembers the token and the base location with trailing slashes
    /// dropped, so that appending an absolute path never doubles a slash.
    pub fn new(base_url: &str, token: &str) -> (r: Self)
        ensures
            r.base_url@ == base_url@.subrange(0, trimmed_base_len(base_url@)),
            r.token@ == token@,
    {
        let n = base_url.unicode_len();
        let mut cut: usize = n;
        proof {
            assert(base_url@.subrange(0, n as int) =~= base_url@);
        }
        while cut > 0 && base_url.get_char(cut - 1) == '/'
            invariant
                cut <= n,
                n == base_url@.len(),
                trimmed_base_len(base_url@) == trimmed_base_len(base_url@.subrange(0, cut as int)),
            decreases cut,
        {
            proof {
                let pre = base_url@.subrange(0, cut as int);
                assert(pre.drop_last() =~= base_url@.subrange(0, cut - 1));
            }
            cut = cut - 1;
        }
        proof {
            let pre = base_url@.subrange(0, cut as int);
            if cut > 0 {
                assert(pre.last() != '/');
            }
            assert(trimmed_base_len(pre) == cut);
        }
        PaperlessClient {
            base_url: base_url.substring_char(0, cut).to_owned(),
            token: token.to_owned(),
        }
    }

    /// The value of the authorization header sent with every request.
    pub fn auth_header_value(&self) -> (r: String)
        ensures
            r@ == "Token "@ + self.token@,
    {
        String::from_str("Token ").concat(self.token.as_str())
    }

    /// Location of the lightweight authenticated request issued at startup to
    /// fail fast when the remote service or the token is unusable.
    pub fn health_check_url(&self) -> (r: String)
        ensures
            r@ == self.base_url@ + "/api/ui_settings/"@,
    {
        self.base_url.clone().concat("/api/ui_settings/")
    }

    /// Location of the multipart document submission.
    pub fn post_document_url(&self) -> (r: String)
        ensures
            r@ == self.base_url@ + "/api/documents/post_document/"@,
    {
        self.base_url.clone().concat("/api/documents/post_document/")
    }

    /// Location of the status lookup for one submitted job.
    pub fn task_status_url(&self, task_id: &str) -> (r: String)
        ensures
            r@ == self.base_url@ + "/api/tasks/?task_id="@ + task_id@,
    {
        self.base_url.clone().concat("/api/tasks/?task_id=").concat(task_id)
    }
}

/// Reads the job handle out of the submission response body: the remote
/// service returns the identifier wrapped in quotes, which are stripped from
/// both ends.
pub fn parse_task_uuid(body: &str) -> (r: String)
    ensures
        r@ == trim_quotes(body@),
{
    let n = body.unicode_len();
    let mut i: usize = 0;
    while i < n && body.get_char(i) == '"'
        invariant
            i <= n,
            n == body@.len(),
            forall|k: int| 0 <= k < i ==> body@[k] == '"',
        decreases n - i,
    {
        i = i + 1;
    }
    proof {
        lemma_drop_leading_quotes_at(body@, i as int);
    }
    let mut j: usize = n;
    while j > i && body.get_char(j - 1) == '"'
        invariant
            i <= j <= n,
            n == body@.len(),
            forall|k: int| j <= k < n ==> body@[k] == '"',
        decreases j,
    {
        j = j - 1;
    }
    proof {
        let rest = body@.subrange(i as int, n as int);
        assert(forall|k: int| j - i <= k < rest.len() ==> rest[k] == '"');
        if j > i {
            assert(rest[j - i - 1] == body@[j - 1]);
        }
        lemma_drop_trailing_quotes_at(rest, j - i);
        assert(rest.subrange(0, j - i) =~= body@.subrange(i as int, j as int));
    }
    body.substring_char(i, j).to_owned()
}

/// Maps one reported status string to the job state it stands for.
pub fn job_state_from_status(status: &str) -> (r: JobState)
    ensures
        r == job_state_of(status@),
{
    if str_eq(status, "SUCCESS") {
        JobState::Succeeded
    } else if str_eq(status, "FAILURE") {
        JobState::Failed
    } else if str_eq(status, "REVOKED") {
        JobState::Cancelled
    } else if str_eq(status, "STARTED") {
        JobState::Running
    } else {
        JobState::Pending
    }
}

/// Reads a status-lookup response, given as the status strings of the
/// returned array in order: the first entry decides, and an empty array
/// defaults to `Pending`.
pub fn job_state_of_response(statuses: &Vec<String>) -> (r: JobState)
    ensures
        statuses@.len() == 0 ==> r == JobState::Pending,
        statuses@.len() > 0 ==> r == job_state_of(statuses@[0]@),
{
    if statuses.len() == 0 {
        JobState::Pending
    } else {
        job_state_from_status(statuses[0].as_str())
    }
}

} // verus!
