//! The Jira issue provider and the Confluence doc provider. Both run in mock
//! mode, answering with fixed placeholder data, until a base URL, an email
//! and an API token are all configured.
//!
//! The HTTP exchanges are the caller's; the credentials, URLs, mock replies
//! and the interpretation of replies are here.
use vstd::prelude::*;
use crate::encoding::{base64, base64_encode, base64_size_fits, percent_encoded, url_encode, utf8_bytes};
use crate::error::WorkspaceError;
use crate::lifecycle::opt_view;
use crate::models::{AuthStatus, CreateEpicInput, CreateIssueInput, Issue};
use crate::text::{owned, push_str, str_chars, chars_string, slice_chars, string_push, str_to_lowercase, unicode_str_lower};

verus! {

/// `s` without trailing `/` (`trim_end_matches('/')`).
pub open spec fn strip_slashes(s: Seq<char>) -> Seq<char>
    decreases s.len(),
{
    if s.len() > 0 && s.last() == '/' {
        strip_slashes(s.drop_last())
    } else {
        s
    }
}

/// `<base without trailing slashes><path>`.
pub fn api_url(base: &str, path: &str) -> (u: String)
    ensures
        u@ == strip_slashes(base@) + path@,
{
    let v = str_chars(base);
    let mut n = v.len();
    assert(v@.take(n as int) =~= v@);
    while n > 0 && v[n - 1] == '/'
        invariant
            v@ == base@,
            n <= v.len(),
            strip_slashes(base@) == strip_slashes(v@.take(n as int)),
        decreases n,
    {
        assert(v@.take(n as int).drop_last() =~= v@.take(n - 1));
        n -= 1;
    }
    let head = slice_chars(&v, 0, n);
    assert(head@ =~= v@.take(n as int));
    let mut u = chars_string(&head);
    push_str(&mut u, path);
    u
}

/// `Basic <base64 of email:token>`: the HTTP authorization of an Atlassian
/// account.
pub open spec fn basic_auth(email: Seq<char>, token: Seq<char>) -> Seq<char> {
    "Basic "@ + base64(utf8_bytes(email + ":"@ + token))
}

pub fn basic_authorization(email: &str, token: &str) -> (a: String)
    requires
        base64_size_fits(utf8_bytes(email@ + ":"@ + token@).len()),
    ensures
        a@ == basic_auth(email@, token@),
{
    let mut creds = owned(email);
    push_str(&mut creds, ":");
    push_str(&mut creds, token);
    let mut a = owned("Basic ");
    push_str(&mut a, base64_encode(creds.as_str()).as_str());
    a
}

/// The error of a failed request: `<action>: <detail>` from the provider.
pub fn request_failed(provider: &str, action: &str, detail: &str) -> (e: WorkspaceError)
    ensures
        e matches WorkspaceError::Provider { provider: p, message: m } && p@ == provider@ && m@
            == action@ + ": "@ + detail@,
{
    let mut m = owned(action);
    push_str(&mut m, ": ");
    push_str(&mut m, detail);
    WorkspaceError::provider(provider, m.as_str())
}

/// A reply whose status is not a success: `<detail>` for authentication,
/// where the status is reported rather than raised.
pub fn auth_refused(service: &str, status: &str) -> (a: AuthStatus)
    ensures
        !a.authenticated,
        a.username is None,
        opt_view(a.details) == Some(service@ + " returned status code: "@ + status@ + ". Check credentials."@),
{
    let mut d = owned(service);
    push_str(&mut d, " returned status code: ");
    push_str(&mut d, status);
    push_str(&mut d, ". Check credentials.");
    AuthStatus { authenticated: false, username: None, details: Some(d) }
}

/// A successful authentication as the named user.
pub fn auth_accepted(display_name: String, details: &str) -> (a: AuthStatus)
    ensures
        a.authenticated,
        opt_view(a.username) == Some(display_name@),
        opt_view(a.details) == Some(details@),
{
    AuthStatus { authenticated: true, username: Some(display_name), details: Some(owned(details)) }
}

// ==========================================
// Jira
// ==========================================

pub struct JiraProvider {
    pub base_url: Option<String>,
    pub email: Option<String>,
    pub token: Option<String>,
    pub default_project: String,
}

impl JiraProvider {
    /// A provider for `base_url` and project (default `PLATFORM`), with the
    /// account's email and API token (`JIRA_EMAIL`, `JIRA_API_TOKEN`).
    pub fn new(
        base_url: Option<String>,
        default_project: Option<String>,
        email: Option<String>,
        token: Option<String>,
    ) -> (p: JiraProvider)
        ensures
            p.base_url == base_url,
            p.email == email,
            p.token == token,
            p.default_project@ == match default_project {
                Some(d) => d@,
                None => "PLATFORM"@,
            },
    {
        JiraProvider {
            base_url,
            email,
            token,
            default_project: match default_project {
                Some(d) => d,
                None => owned("PLATFORM"),
            },
        }
    }

    /// Mock mode: the base URL, email or token is missing.
    pub fn is_mock(&self) -> (m: bool)
        ensures
            m == (self.base_url is None || self.email is None || self.token is None),
    {
        self.base_url.is_none() || self.email.is_none() || self.token.is_none()
    }

    /// The authorization header value, when both credentials are set.
    pub fn authorization(&self) -> (a: Option<String>)
        requires
            self.email matches Some(e) && self.token matches Some(t) ==> base64_size_fits(
                utf8_bytes(e@ + ":"@ + t@).len(),
            ),
        ensures
            match (self.email, self.token) {
                (Some(e), Some(t)) => a matches Some(x) && x@ == basic_auth(e@, t@),
                _ => a is None,
            },
    {
        match (&self.email, &self.token) {
            (Some(e), Some(t)) => Some(basic_authorization(e.as_str(), t.as_str())),
            _ => None,
        }
    }

    /// What mock mode answers to an authentication check.
    pub fn mock_auth() -> (a: AuthStatus)
        ensures
            a.authenticated,
            opt_view(a.username) == Some("jira-mock-user"@),
            opt_view(a.details) == Some("Jira provider running in mock mode (credentials missing)"@),
    {
        AuthStatus {
            authenticated: true,
            username: Some(owned("jira-mock-user")),
            details: Some(owned("Jira provider running in mock mode (credentials missing)")),
        }
    }

    /// What mock mode answers for an issue.
    pub fn mock_issue(&self, key: &str) -> (i: Issue)
        ensures
            i.key@ == key@,
            i.summary@ == "Mock Issue: Implement Slack notifications"@,
            opt_view(i.description) == Some("Please build Slack notification templates and retries."@),
            i.status@ == "To Do"@,
            i.issue_type@ == "Task"@,
            opt_view(i.assignee) == Some("mock-assignee"@),
            i.project_key@ == self.default_project@,
    {
        Issue {
            key: owned(key),
            summary: owned("Mock Issue: Implement Slack notifications"),
            description: Some(owned("Please build Slack notification templates and retries.")),
            status: owned("To Do"),
            issue_type: owned("Task"),
            assignee: Some(owned("mock-assignee")),
            project_key: self.default_project.clone(),
        }
    }

    /// What mock mode answers for a new epic: `<project>-100`.
    pub fn mock_epic(input: CreateEpicInput) -> (i: Issue)
        ensures
            i.key@ == input.project@ + "-100"@,
            i.summary == input.summary,
            i.description == input.description,
            i.status@ == "To Do"@,
            i.issue_type@ == "Epic"@,
            i.assignee is None,
            i.project_key == input.project,
    {
        let mut key = input.project.clone();
        push_str(&mut key, "-100");
        Issue {
            key,
            summary: input.summary,
            description: input.description,
            status: owned("To Do"),
            issue_type: owned("Epic"),
            assignee: None,
            project_key: input.project,
        }
    }

    /// What mock mode answers for a new issue: `<project>-101`.
    pub fn mock_created_issue(input: CreateIssueInput) -> (i: Issue)
        ensures
            i.key@ == input.project@ + "-101"@,
            i.summary == input.summary,
            i.description == input.description,
            i.status@ == "To Do"@,
            i.issue_type == input.issue_type,
            i.assignee is None,
            i.project_key == input.project,
    {
        let mut key = input.project.clone();
        push_str(&mut key, "-101");
        Issue {
            key,
            summary: input.summary,
            description: input.description,
            status: owned("To Do"),
            issue_type: input.issue_type,
            assignee: None,
            project_key: input.project,
        }
    }
}

// ==========================================
// Confluence
// ==========================================

pub struct ConfluenceProvider {
    pub base_url: Option<String>,
    pub email: Option<String>,
    pub token: Option<String>,
    pub default_space: String,
}

/// `title` with each space replaced by `-`.
pub open spec fn dashed(title: Seq<char>) -> Seq<char>
    decreases title.len(),
{
    if title.len() == 0 {
        Seq::empty()
    } else {
        dashed(title.drop_last()).push(if title.last() == ' ' { '-' } else { title.last() })
    }
}

impl ConfluenceProvider {
    /// A provider for `base_url` and space (default empty), with the
    /// account's email and API token (`CONFLUENCE_EMAIL`,
    /// `CONFLUENCE_API_TOKEN`).
    pub fn new(
        base_url: Option<String>,
        default_space: Option<String>,
        email: Option<String>,
        token: Option<String>,
    ) -> (p: ConfluenceProvider)
        ensures
            p.base_url == base_url,
            p.email == email,
            p.token == token,
            p.default_space@ == match default_space {
                Some(d) => d@,
                None => Seq::<char>::empty(),
            },
    {
        ConfluenceProvider {
            base_url,
            email,
            token,
            default_space: match default_space {
                Some(d) => d,
                None => String::new(),
            },
        }
    }

    /// Mock mode: the base URL, email or token is missing.
    pub fn is_mock(&self) -> (m: bool)
        ensures
            m == (self.base_url is None || self.email is None || self.token is None),
    {
        self.base_url.is_none() || self.email.is_none() || self.token.is_none()
    }

    /// The authorization header value, when both credentials are set.
    pub fn authorization(&self) -> (a: Option<String>)
        requires
            self.email matches Some(e) && self.token matches Some(t) ==> base64_size_fits(
                utf8_bytes(e@ + ":"@ + t@).len(),
            ),
        ensures
            match (self.email, self.token) {
                (Some(e), Some(t)) => a matches Some(x) && x@ == basic_auth(e@, t@),
                _ => a is None,
            },
    {
        match (&self.email, &self.token) {
            (Some(e), Some(t)) => Some(basic_authorization(e.as_str(), t.as_str())),
            _ => None,
        }
    }

    /// What mock mode answers to an authentication check.
    pub fn mock_auth() -> (a: AuthStatus)
        ensures
            a.authenticated,
            opt_view(a.username) == Some("confluence-mock-user"@),
            opt_view(a.details) == Some(
                "Confluence provider running in mock mode (credentials missing)"@,
            ),
    {
        AuthStatus {
            authenticated: true,
            username: Some(owned("confluence-mock-user")),
            details: Some(owned("Confluence provider running in mock mode (credentials missing)")),
        }
    }

    /// What mock mode answers for a page.
    pub fn mock_page(space: &str, title: &str) -> (p: String)
        ensures
            p@ == "# Mock Confluence Page\n\nSpace: "@ + space@ + "\nTitle: "@ + title@
                + "\n\nThis is placeholder confluence page content."@,
    {
        let mut p = owned("# Mock Confluence Page\n\nSpace: ");
        push_str(&mut p, space);
        push_str(&mut p, "\nTitle: ");
        push_str(&mut p, title);
        push_str(&mut p, "\n\nThis is placeholder confluence page content.");
        p
    }

    /// What mock mode answers for a new page: `mock-page-id-` and the
    /// lowercase title with spaces as dashes.
    pub fn mock_page_id(title: &str) -> (id: String)
        ensures
            id@ == "mock-page-id-"@ + unicode_str_lower(dashed(title@)),
    {
        let v = str_chars(title);
        let mut d = String::new();
        let mut i: usize = 0;
        while i < v.len()
            invariant
                v@ == title@,
                i <= v.len(),
                d@ == dashed(v@.take(i as int)),
            decreases v.len() - i,
        {
            assert(v@.take(i + 1).drop_last() =~= v@.take(i as int));
            string_push(&mut d, if v[i] == ' ' { '-' } else { v[i] });
            i += 1;
        }
        assert(v@.take(v.len() as int) =~= v@);
        let mut id = owned("mock-page-id-");
        push_str(&mut id, str_to_lowercase(d.as_str()).as_str());
        id
    }

    /// The search for a page by space and title, the title percent-encoded.
    pub fn page_search_url(base: &str, space: &str, title: &str) -> (u: String)
        ensures
            u@ == strip_slashes(base@) + "/wiki/rest/api/content?spaceKey="@ + space@ + "&title="@
                + percent_encoded(utf8_bytes(title@)) + "&expand=body.storage"@,
    {
        let mut u = api_url(base, "/wiki/rest/api/content?spaceKey=");
        push_str(&mut u, space);
        push_str(&mut u, "&title=");
        push_str(&mut u, url_encode(title).as_str());
        push_str(&mut u, "&expand=body.storage");
        u
    }

    /// The content of the first page a search found (empty when it has no
    /// stored body); no page found is an error.
    pub fn first_page_body(results: Vec<Option<String>>, space: &str, title: &str) -> (res: Result<
        String,
        WorkspaceError,
    >)
        ensures
            results@.len() > 0 ==> (res matches Ok(b) && b@ == match results@[0] {
                Some(x) => x@,
                None => Seq::<char>::empty(),
            }),
            results@.len() == 0 ==> (res matches Err(WorkspaceError::NotFound(m)) && m@ == "Page '"@
                + title@ + "' not found in Confluence space '"@ + space@ + "'"@),
    {
        let mut rs = results;
        if rs.len() == 0 {
            let mut m = owned("Page '");
            push_str(&mut m, title);
            push_str(&mut m, "' not found in Confluence space '");
            push_str(&mut m, space);
            push_str(&mut m, "'");
            return Err(WorkspaceError::NotFound(m));
        }
        match rs.remove(0) {
            Some(b) => Ok(b),
            None => Ok(String::new()),
        }
    }

    /// The content URL of a page; with `expand`, asking for its version and
    /// space as an update needs them.
    pub fn page_url(base: &str, page_id: &str, expand: bool) -> (u: String)
        ensures
            u@ == strip_slashes(base@) + "/wiki/rest/api/content/"@ + page_id@ + if expand {
                "?expand=version,space"@
            } else {
                Seq::empty()
            },
    {
        let mut u = api_url(base, "/wiki/rest/api/content/");
        push_str(&mut u, page_id);
        if expand {
            push_str(&mut u, "?expand=version,space");
        } else {
            assert(u@ =~= u@ + Seq::<char>::empty());
        }
        u
    }

    /// The error when the current version of a page could not be read.
    pub fn version_unavailable(page_id: &str, status: &str) -> (e: WorkspaceError)
        ensures
            e matches WorkspaceError::Provider { provider: p, message: m } && p@ == "confluence"@
                && m@ == "Failed to get version for page "@ + page_id@ + ": status "@ + status@,
    {
        let mut m = owned("Failed to get version for page ");
        push_str(&mut m, page_id);
        push_str(&mut m, ": status ");
        push_str(&mut m, status);
        WorkspaceError::provider("confluence", m.as_str())
    }

    /// The version a page update writes: one past the current one.
    pub fn next_version(current: usize) -> (n: usize)
        requires
            current < usize::MAX,
        ensures
            n == current + 1,
    {
        current + 1
    }
}

} // verus!
