//! Reading a remote locator into the coordinates of an Azure DevOps repository.
use vstd::prelude::*;
use crate::text::{lemma_trim_untouched, no_outer_space, trim, trim_spec};

verus! {

/// The organization, project and repository that a remote locator names.
#[derive(Debug, PartialEq, Eq)]
pub struct AzureRepoComponents {
    pub org: String,
    pub project: String,
    pub repo: String,
}

/// The three coordinates as text.
pub open spec fn components_view(c: AzureRepoComponents) -> (Seq<char>, Seq<char>, Seq<char>) {
    (c.org@, c.project@, c.repo@)
}

/// No `c` in `s`.
pub open spec fn lacks(s: Seq<char>, c: char) -> bool {
    forall|i: int| 0 <= i < s.len() ==> #[trigger] s[i] != c
}

/// One path segment: not empty, and no `/` in it.
pub open spec fn is_segment(s: Seq<char>) -> bool {
    s.len() > 0 && lacks(s, '/')
}

/// The fixed parts of the two forms.
pub open spec fn ssh_prefix() -> Seq<char> {
    "git@ssh.dev.azure.com:v3/"@
}

pub open spec fn https_scheme() -> Seq<char> {
    "https://"@
}

pub open spec fn https_host() -> Seq<char> {
    "@dev.azure.com/"@
}

pub open spec fn git_marker() -> Seq<char> {
    "/_git/"@
}

/// `git@ssh.dev.azure.com:v3/<org>/<project>/<repo>`
pub open spec fn ssh_locator(org: Seq<char>, project: Seq<char>, repo: Seq<char>) -> Seq<char> {
    ssh_prefix() + org + seq!['/'] + project + seq!['/'] + repo
}

/// `https://<principal>@dev.azure.com/<org>/<project>/_git/<repo>`
pub open spec fn https_locator(
    principal: Seq<char>,
    org: Seq<char>,
    project: Seq<char>,
    repo: Seq<char>,
) -> Seq<char> {
    https_scheme() + principal + https_host() + org + seq!['/'] + project + git_marker() + repo
}

pub open spec fn is_ssh_form(url: Seq<char>, org: Seq<char>, project: Seq<char>, repo: Seq<char>) -> bool {
    &&& is_segment(org)
    &&& is_segment(project)
    &&& is_segment(repo)
    &&& url == ssh_locator(org, project, repo)
}

pub open spec fn is_https_form(
    url: Seq<char>,
    principal: Seq<char>,
    org: Seq<char>,
    project: Seq<char>,
    repo: Seq<char>,
) -> bool {
    &&& principal.len() > 0
    &&& lacks(principal, '@')
    &&& is_segment(org)
    &&& is_segment(project)
    &&& is_segment(repo)
    &&& url == https_locator(principal, org, project, repo)
}

/// The segments of `url` read as the SSH form, if it has that form.
pub open spec fn ssh_parts(url: Seq<char>) -> Option<(Seq<char>, Seq<char>, Seq<char>)> {
    if exists|o: Seq<char>, p: Seq<char>, r: Seq<char>| is_ssh_form(url, o, p, r) {
        let (o, p, r) = choose|o: Seq<char>, p: Seq<char>, r: Seq<char>| is_ssh_form(url, o, p, r);
        Some((o, p, r))
    } else {
        None
    }
}

/// The path segments of `url` read as the HTTPS form, if it has that form;
/// the principal before the host is left out.
pub open spec fn https_parts(url: Seq<char>) -> Option<(Seq<char>, Seq<char>, Seq<char>)> {
    if exists|a: Seq<char>, o: Seq<char>, p: Seq<char>, r: Seq<char>|
        is_https_form(url, a, o, p, r) {
        let (a, o, p, r) = choose|a: Seq<char>, o: Seq<char>, p: Seq<char>, r: Seq<char>|
            is_https_form(url, a, o, p, r);
        Some((o, p, r))
    } else {
        None
    }
}

pub open spec fn trimmed(parts: (Seq<char>, Seq<char>, Seq<char>)) -> (Seq<char>, Seq<char>, Seq<char>) {
    (trim_spec(parts.0), trim_spec(parts.1), trim_spec(parts.2))
}

/// The coordinates that `url` names: the SSH form is tried first, then the
/// HTTPS form; each segment is trimmed.
pub open spec fn locate(url: Seq<char>) -> Option<(Seq<char>, Seq<char>, Seq<char>)> {
    match ssh_parts(url) {
        Some(parts) => Some(trimmed(parts)),
        None => match https_parts(url) {
            Some(parts) => Some(trimmed(parts)),
            None => None,
        },
    }
}

/// Where the segments of an SSH-form locator stand in it.
proof fn lemma_ssh_layout(url: Seq<char>, o: Seq<char>, p: Seq<char>, r: Seq<char>)
    requires
        is_ssh_form(url, o, p, r),
    ensures
        url.subrange(0, ssh_prefix().len() as int) == ssh_prefix(),
        url.len() == ssh_prefix().len() as int + o.len() as int + 1 + p.len() as int + 1 + r.len() as int,
        forall|i: int| 0 <= i < o.len() as int ==> url[ssh_prefix().len() as int + i] == #[trigger] o[i],
        url[ssh_prefix().len() as int + o.len() as int] == '/',
        forall|i: int| 0 <= i < p.len() as int ==> url[ssh_prefix().len() as int + o.len() as int + 1 + i] == #[trigger] p[i],
        url[ssh_prefix().len() as int + o.len() as int + 1 + p.len() as int] == '/',
        forall|i: int|
            0 <= i < r.len() as int ==> url[ssh_prefix().len() as int + o.len() as int + 1 + p.len() as int + 1 + i]
                == #[trigger] r[i],
{
    assert(url.subrange(0, ssh_prefix().len() as int) =~= ssh_prefix());
}

/// An SSH-form locator has one reading only.
proof fn lemma_ssh_unique(
    url: Seq<char>,
    o: Seq<char>,
    p: Seq<char>,
    r: Seq<char>,
    o2: Seq<char>,
    p2: Seq<char>,
    r2: Seq<char>,
)
    requires
        is_ssh_form(url, o, p, r),
        is_ssh_form(url, o2, p2, r2),
    ensures
        o == o2 && p == p2 && r == r2,
{
    lemma_ssh_layout(url, o, p, r);
    lemma_ssh_layout(url, o2, p2, r2);
    let k = ssh_prefix().len() as int;
    if o.len() < o2.len() {
        assert(o2[o.len() as int] == url[k + o.len() as int]);
    } else if o2.len() < o.len() {
        assert(o[o2.len() as int] == url[k + o2.len() as int]);
    }
    assert(o =~= o2);
    if p.len() < p2.len() {
        assert(p2[p.len() as int] == url[k + o.len() as int + 1 + p.len() as int]);
    } else if p2.len() < p.len() {
        assert(p[p2.len() as int] == url[k + o.len() as int + 1 + p2.len() as int]);
    }
    assert(p =~= p2);
    assert(r =~= r2);
}

/// Where the parts of an HTTPS-form locator stand in it.
proof fn lemma_https_layout(url: Seq<char>, a: Seq<char>, o: Seq<char>, p: Seq<char>, r: Seq<char>)
    requires
        is_https_form(url, a, o, p, r),
    ensures
        url.subrange(0, https_scheme().len() as int) == https_scheme(),
        url.len() == 8 + a.len() as int + 15 + o.len() as int + 1 + p.len() as int + 6 + r.len() as int,
        forall|i: int| 0 <= i < a.len() as int ==> url[8 + i] == #[trigger] a[i],
        url.subrange(8 + a.len() as int, 8 + a.len() as int + 15) == https_host(),
        url[8 + a.len() as int] == '@',
        forall|i: int| 0 <= i < o.len() as int ==> url[8 + a.len() as int + 15 + i] == #[trigger] o[i],
        url[8 + a.len() as int + 15 + o.len() as int] == '/',
        forall|i: int| 0 <= i < p.len() as int ==> url[8 + a.len() as int + 15 + o.len() as int + 1 + i] == #[trigger] p[i],
        url.subrange(8 + a.len() as int + 15 + o.len() as int + 1 + p.len() as int, 8 + a.len() as int + 15 + o.len() as int + 1 + p.len() as int + 6)
            == git_marker(),
        url[8 + a.len() as int + 15 + o.len() as int + 1 + p.len() as int] == '/',
        forall|i: int|
            0 <= i < r.len() as int ==> url[8 + a.len() as int + 15 + o.len() as int + 1 + p.len() as int + 6 + i]
                == #[trigger] r[i],
{
    reveal_strlit("https://");
    reveal_strlit("@dev.azure.com/");
    reveal_strlit("/_git/");
    assert(url.subrange(0, 8) =~= https_scheme());
    assert(url.subrange(8 + a.len() as int, 8 + a.len() as int + 15) =~= https_host());
    let m = 8 + a.len() as int + 15 + o.len() as int + 1 + p.len() as int;
    assert(url.subrange(m, m + 6) =~= git_marker());
}

/// An HTTPS-form locator has one reading only.
proof fn lemma_https_unique(
    url: Seq<char>,
    a: Seq<char>,
    o: Seq<char>,
    p: Seq<char>,
    r: Seq<char>,
    a2: Seq<char>,
    o2: Seq<char>,
    p2: Seq<char>,
    r2: Seq<char>,
)
    requires
        is_https_form(url, a, o, p, r),
        is_https_form(url, a2, o2, p2, r2),
    ensures
        a == a2 && o == o2 && p == p2 && r == r2,
{
    lemma_https_layout(url, a, o, p, r);
    lemma_https_layout(url, a2, o2, p2, r2);
    if a.len() < a2.len() {
        assert(a2[a.len() as int] == url[8 + a.len() as int]);
    } else if a2.len() < a.len() {
        assert(a[a2.len() as int] == url[8 + a2.len() as int]);
    }
    assert(a =~= a2);
    let k = 8 + a.len() as int + 15;
    if o.len() < o2.len() {
        assert(o2[o.len() as int] == url[k + o.len() as int]);
    } else if o2.len() < o.len() {
        assert(o[o2.len() as int] == url[k + o2.len() as int]);
    }
    assert(o =~= o2);
    if p.len() < p2.len() {
        assert(p2[p.len() as int] == url[k + o.len() as int + 1 + p.len() as int]);
    } else if p2.len() < p.len() {
        assert(p[p2.len() as int] == url[k + o.len() as int + 1 + p2.len() as int]);
    }
    assert(p =~= p2);
    assert(r =~= r2);
}

/// The separators of an SSH-form locator are its first slashes after the prefix.
proof fn lemma_ssh_slashes(url: Seq<char>, o: Seq<char>, p: Seq<char>, r: Seq<char>)
    requires
        is_ssh_form(url, o, p, r),
    ensures
        ({
            let k = ssh_prefix().len() as int;
            let s1 = k + o.len();
            let s2 = s1 + 1 + p.len();
            &&& text_at(url, 0, ssh_prefix())
            &&& k < s1 && s1 + 1 < s2 && s2 + 1 < url.len()
            &&& url[s1] == '/' && url[s2] == '/'
            &&& forall|j: int| k <= j < s1 ==> #[trigger] url[j] != '/'
            &&& forall|j: int| s1 < j < s2 ==> #[trigger] url[j] != '/'
            &&& forall|j: int| s2 < j < url.len() ==> #[trigger] url[j] != '/'
        }),
{
    reveal(text_at);
    lemma_ssh_layout(url, o, p, r);
    let k = ssh_prefix().len() as int;
    let s1 = k + o.len();
    let s2 = s1 + 1 + p.len();
    assert forall|j: int| k <= j < s1 implies #[trigger] url[j] != '/' by {
        assert(o[j - k] != '/');
    }
    assert forall|j: int| s1 < j < s2 implies #[trigger] url[j] != '/' by {
        assert(p[j - s1 - 1] != '/');
    }
    assert forall|j: int| s2 < j < url.len() implies #[trigger] url[j] != '/' by {
        assert(r[j - s2 - 1] != '/');
    }
}

/// Where the separators of an HTTPS-form reading stand: the first `@` after
/// the scheme, and the first slashes after the host.
pub open spec fn https_marks(url: Seq<char>, a: Seq<char>, o: Seq<char>, p: Seq<char>, r: Seq<char>) -> bool {
    let at = 8 + a.len() as int;
    let s0 = at + 15;
    let s1 = s0 + o.len();
    let s2 = s1 + 1 + p.len();
    &&& https_scheme().len() == 8 && https_host().len() == 15 && git_marker().len() == 6
    &&& text_at(url, 0, https_scheme())
    &&& 8 < at && url[at] == '@'
    &&& forall|j: int| 8 <= j < at ==> #[trigger] url[j] != '@'
    &&& text_at(url, at, https_host())
    &&& s0 < s1 && s1 + 1 < s2 && s2 + 6 < url.len()
    &&& url[s1] == '/' && url[s2] == '/'
    &&& text_at(url, s2, git_marker())
    &&& forall|j: int| s0 <= j < s1 ==> #[trigger] url[j] != '/'
    &&& forall|j: int| s1 < j < s2 ==> #[trigger] url[j] != '/'
    &&& forall|j: int| s2 + 6 <= j < url.len() ==> #[trigger] url[j] != '/'
}

/// The separators of an HTTPS-form locator are its first `@` after the scheme
/// and its first slashes after the host.
proof fn lemma_https_marks(url: Seq<char>, a: Seq<char>, o: Seq<char>, p: Seq<char>, r: Seq<char>)
    requires
        is_https_form(url, a, o, p, r),
    ensures
        https_marks(url, a, o, p, r),
{
    reveal_strlit("https://");
    reveal_strlit("@dev.azure.com/");
    reveal_strlit("/_git/");
    reveal(text_at);
    lemma_https_layout(url, a, o, p, r);
    let at = 8 + a.len() as int;
    let s0 = at + 15;
    let s1 = s0 + o.len();
    let s2 = s1 + 1 + p.len();
    assert forall|j: int| 8 <= j < at implies #[trigger] url[j] != '@' by {
        assert(a[j - 8] != '@');
    }
    assert forall|j: int| s0 <= j < s1 implies #[trigger] url[j] != '/' by {
        assert(o[j - s0] != '/');
    }
    assert forall|j: int| s1 < j < s2 implies #[trigger] url[j] != '/' by {
        assert(p[j - s1 - 1] != '/');
    }
    assert forall|j: int| s2 + 6 <= j < url.len() implies #[trigger] url[j] != '/' by {
        assert(r[j - s2 - 6] != '/');
    }
}

/// `s` holds the text `lit` at index `pos`.
#[verifier::opaque]
pub open spec fn text_at(s: Seq<char>, pos: int, lit: Seq<char>) -> bool {
    0 <= pos && pos + lit.len() <= s.len() && s.subrange(pos, pos + lit.len()) == lit
}

/// The first index at or after `from` where `s` holds `c`, if there is one.
fn find_char(s: &str, n: usize, c: char, from: usize) -> (r: Option<usize>)
    requires
        n == s@.len(),
        from <= n,
    ensures
        match r {
            Some(i) => from <= i < n && s@[i as int] == c && forall|j: int|
                from <= j < i ==> #[trigger] s@[j] != c,
            None => forall|j: int| from <= j < n ==> #[trigger] s@[j] != c,
        },
{
    let mut i = from;
    while i < n
        invariant
            from <= i <= n,
            n == s@.len(),
            forall|j: int| from <= j < i ==> #[trigger] s@[j] != c,
        decreases n - i,
    {
        if s.get_char(i) == c {
            return Some(i);
        }
        i += 1;
    }
    None
}

/// Whether `s` holds the text `lit` at index `pos`.
fn holds_at(s: &str, n: usize, pos: usize, lit: &str) -> (r: bool)
    requires
        n == s@.len(),
        pos <= n,
    ensures
        r == text_at(s@, pos as int, lit@),
        r ==> pos + lit@.len() <= n,
{
    reveal(text_at);
    let m = lit.unicode_len();
    if m > n - pos {
        return false;
    }
    let mut i: usize = 0;
    while i < m
        invariant
            i <= m,
            m == lit@.len(),
            pos + m <= n,
            n == s@.len(),
            forall|j: int| 0 <= j < i ==> s@[pos + j] == #[trigger] lit@[j],
        decreases m - i,
    {
        if s.get_char(pos + i) != lit.get_char(i) {
            reveal(text_at);
            assert(s@.subrange(pos as int, pos + m)[i as int] != lit@[i as int]);
            return false;
        }
        i += 1;
    }
    assert(s@.subrange(pos as int, pos + m) =~= lit@);
    reveal(text_at);
    true
}

/// The coordinates of a parse result, as text.
pub open spec fn parts_view(r: Option<AzureRepoComponents>) -> Option<(Seq<char>, Seq<char>, Seq<char>)> {
    match r {
        Some(c) => Some(components_view(c)),
        None => None,
    }
}

pub open spec fn trimmed_parts(parts: Option<(Seq<char>, Seq<char>, Seq<char>)>) -> Option<(Seq<char>, Seq<char>, Seq<char>)> {
    match parts {
        Some(p) => Some(trimmed(p)),
        None => None,
    }
}

/// The coordinates held in `url` between the given bounds, trimmed.
fn components(url: &str, n: usize, o: (usize, usize), p: (usize, usize), r: (usize, usize)) -> (c: AzureRepoComponents)
    requires
        n == url@.len(),
        o.0 <= o.1 <= n,
        p.0 <= p.1 <= n,
        r.0 <= r.1 <= n,
    ensures
        components_view(c) == trimmed((url@.subrange(o.0 as int, o.1 as int), url@.subrange(p.0 as int, p.1 as int), url@.subrange(r.0 as int, r.1 as int))),
{
    AzureRepoComponents {
        org: trim(url.substring_char(o.0, o.1)),
        project: trim(url.substring_char(p.0, p.1)),
        repo: trim(url.substring_char(r.0, r.1)),
    }
}

/// Reads `url` as the SSH form.
fn parse_ssh(url: &str, n: usize) -> (r: Option<AzureRepoComponents>)
    requires
        n == url@.len(),
    ensures
        parts_view(r) == trimmed_parts(ssh_parts(url@)),
{
    let prefix = "git@ssh.dev.azure.com:v3/";
    let k = prefix.unicode_len();
    let ghost no_form = forall|o: Seq<char>, p: Seq<char>, q: Seq<char>| !is_ssh_form(url@, o, p, q);
    if !holds_at(url, n, 0, prefix) {
        assert(no_form) by {
            assert forall|o: Seq<char>, p: Seq<char>, q: Seq<char>| !is_ssh_form(url@, o, p, q) by {
                if is_ssh_form(url@, o, p, q) {
                    lemma_ssh_slashes(url@, o, p, q);
                }
            }
        }
        return None;
    }
    let s1 = find_char(url, n, '/', k);
    let s2 = match s1 {
        Some(s1) if s1 > k && s1 + 1 < n => find_char(url, n, '/', s1 + 1),
        _ => None,
    };
    let tail = match (s1, s2) {
        (Some(s1), Some(s2)) if s2 > s1 + 1 && s2 + 1 < n => find_char(url, n, '/', s2 + 1),
        _ => Some(n),
    };
    match (s1, s2, tail) {
        (Some(s1), Some(s2), None) => {
            let c = components(url, n, (k, s1), (s1 + 1, s2), (s2 + 1, n));
            proof {
                let o = url@.subrange(k as int, s1 as int);
                let p = url@.subrange(s1 + 1, s2 as int);
                let q = url@.subrange(s2 + 1, n as int);
                reveal(text_at);
                assert(url@ =~= ssh_locator(o, p, q));
                assert(is_ssh_form(url@, o, p, q));
                let (o2, p2, q2) = choose|o2: Seq<char>, p2: Seq<char>, q2: Seq<char>|
                    is_ssh_form(url@, o2, p2, q2);
                lemma_ssh_unique(url@, o, p, q, o2, p2, q2);
            }
            Some(c)
        },
        _ => {
            assert(no_form) by {
                assert forall|o: Seq<char>, p: Seq<char>, q: Seq<char>| !is_ssh_form(url@, o, p, q) by {
                    if is_ssh_form(url@, o, p, q) {
                        lemma_ssh_slashes(url@, o, p, q);
                    }
                }
            }
            None
        },
    }
}

/// The lengths of the fixed parts of the two forms.
proof fn lemma_literal_lengths()
    ensures
        ssh_prefix().len() == 25,
        https_scheme().len() == 8,
        https_host().len() == 15,
        git_marker().len() == 6,
{
    reveal_strlit("git@ssh.dev.azure.com:v3/");
    reveal_strlit("https://");
    reveal_strlit("@dev.azure.com/");
    reveal_strlit("/_git/");
}

/// Reads `url` as the HTTPS form.
fn parse_https(url: &str, n: usize) -> (r: Option<AzureRepoComponents>)
    requires
        n == url@.len(),
    ensures
        parts_view(r) == trimmed_parts(https_parts(url@)),
{
    proof {
        lemma_literal_lengths();
    }
    if !holds_at(url, n, 0, "https://") {
        proof { lemma_https_marks_all(url@) }
        return None;
    }
    let at = match find_char(url, n, '@', 8) {
        Some(at) => at,
        None => {
            proof { lemma_https_marks_all(url@) }
            return None;
        },
    };
    if at == 8 || !holds_at(url, n, at, "@dev.azure.com/") {
        proof { lemma_https_marks_all(url@) }
        return None;
    }
    let s1 = match find_char(url, n, '/', at + 15) {
        Some(s1) if s1 > at + 15 && s1 + 1 < n => s1,
        _ => {
            proof { lemma_https_marks_all(url@) }
            return None;
        },
    };
    let s2 = match find_char(url, n, '/', s1 + 1) {
        Some(s2) if s2 > s1 + 1 => s2,
        _ => {
            proof { lemma_https_marks_all(url@) }
            return None;
        },
    };
    if !holds_at(url, n, s2, "/_git/") || s2 + 6 >= n {
        proof { lemma_https_marks_all(url@) }
        return None;
    }
    if find_char(url, n, '/', s2 + 6).is_some() {
        proof { lemma_https_marks_all(url@) }
        return None;
    }
    let c = components(url, n, (at + 15, s1), (s1 + 1, s2), (s2 + 6, n));
    proof {
        lemma_https_found(url@, at as int, s1 as int, s2 as int);
    }
    Some(c)
}

/// What `parse_https` has found is the one reading of `url`.
proof fn lemma_https_found(url: Seq<char>, at: int, s1: int, s2: int)
    requires
        text_at(url, 0, https_scheme()),
        8 < at,
        forall|j: int| 8 <= j < at ==> #[trigger] url[j] != '@',
        at + 15 < s1 < s2 - 1,
        url[s1] == '/',
        s2 + 6 < url.len(),
        text_at(url, at, https_host()),
        text_at(url, s2, git_marker()),
        forall|j: int| at + 15 <= j < s1 ==> #[trigger] url[j] != '/',
        forall|j: int| s1 < j < s2 ==> #[trigger] url[j] != '/',
        forall|j: int| s2 + 6 <= j < url.len() ==> #[trigger] url[j] != '/',
    ensures
        https_parts(url) == Some(
            (url.subrange(at + 15, s1), url.subrange(s1 + 1, s2), url.subrange(s2 + 6, url.len() as int)),
        ),
{
    reveal_strlit("https://");
    reveal_strlit("@dev.azure.com/");
    reveal_strlit("/_git/");
    reveal(text_at);
    let a = url.subrange(8, at);
    let o = url.subrange(at + 15, s1);
    let p = url.subrange(s1 + 1, s2);
    let q = url.subrange(s2 + 6, url.len() as int);
    assert(url =~= url.subrange(0, 8) + a + url.subrange(at, at + 15) + o + seq![url[s1]] + p
        + url.subrange(s2, s2 + 6) + q);
    assert(url =~= https_locator(a, o, p, q));
    assert(is_https_form(url, a, o, p, q));
    let (a2, o2, p2, q2) = choose|a2: Seq<char>, o2: Seq<char>, p2: Seq<char>, q2: Seq<char>|
        is_https_form(url, a2, o2, p2, q2);
    lemma_https_unique(url, a, o, p, q, a2, o2, p2, q2);
}

/// Reads a remote locator into repository coordinates.
///
/// Two whole-string forms are accepted, tried in this order:
/// `git@ssh.dev.azure.com:v3/<org>/<project>/<repo>` and
/// `https://<principal>@dev.azure.com/<org>/<project>/_git/<repo>`, where each
/// segment is non-empty and holds no `/`, and the principal is non-empty and
/// holds no `@`. The principal is not kept. Each segment is trimmed of white
/// space. Any other text gives `None`.
pub fn parse_azure_git_url(url: &str) -> (r: Option<AzureRepoComponents>)
    ensures
        parts_view(r) == locate(url@),
{
    let n = url.unicode_len();
    match parse_ssh(url, n) {
        Some(c) => Some(c),
        None => parse_https(url, n),
    }
}

/// Every well-formed SSH-form locator is read into its own segments, trimmed;
/// a segment with no white space at its ends is kept verbatim.
pub proof fn lemma_ssh_locator_parses(org: Seq<char>, project: Seq<char>, repo: Seq<char>)
    requires
        is_segment(org),
        is_segment(project),
        is_segment(repo),
    ensures
        locate(ssh_locator(org, project, repo)) == Some(
            (trim_spec(org), trim_spec(project), trim_spec(repo)),
        ),
        (no_outer_space(org) && no_outer_space(project) && no_outer_space(repo)) ==> locate(ssh_locator(org, project, repo)) == Some((org, project, repo)),
{
    let url = ssh_locator(org, project, repo);
    assert(is_ssh_form(url, org, project, repo));
    let (o2, p2, q2) = choose|o2: Seq<char>, p2: Seq<char>, q2: Seq<char>|
        is_ssh_form(url, o2, p2, q2);
    lemma_ssh_unique(url, org, project, repo, o2, p2, q2);
    if no_outer_space(org) && no_outer_space(project) && no_outer_space(repo) {
        lemma_trim_untouched(org);
        lemma_trim_untouched(project);
        lemma_trim_untouched(repo);
    }
}

/// Every well-formed HTTPS-form locator is read into its path segments,
/// trimmed, whatever its principal; a segment with no white space at its ends
/// is kept verbatim.
pub proof fn lemma_https_locator_parses(
    principal: Seq<char>,
    org: Seq<char>,
    project: Seq<char>,
    repo: Seq<char>,
)
    requires
        principal.len() > 0,
        lacks(principal, '@'),
        is_segment(org),
        is_segment(project),
        is_segment(repo),
    ensures
        locate(https_locator(principal, org, project, repo)) == Some(
            (trim_spec(org), trim_spec(project), trim_spec(repo)),
        ),
        (no_outer_space(org) && no_outer_space(project) && no_outer_space(repo)) ==> locate(https_locator(principal, org, project, repo)) == Some((org, project, repo)),
{
    let url = https_locator(principal, org, project, repo);
    reveal_strlit("https://");
    reveal_strlit("git@ssh.dev.azure.com:v3/");
    assert(url[0] == 'h');
    assert forall|o: Seq<char>, p: Seq<char>, q: Seq<char>| !is_ssh_form(url, o, p, q) by {
        if is_ssh_form(url, o, p, q) {
            assert(url[0] == ssh_prefix()[0]);
        }
    }
    assert(is_https_form(url, principal, org, project, repo));
    let (a2, o2, p2, q2) = choose|a2: Seq<char>, o2: Seq<char>, p2: Seq<char>, q2: Seq<char>|
        is_https_form(url, a2, o2, p2, q2);
    lemma_https_unique(url, principal, org, project, repo, a2, o2, p2, q2);
    if no_outer_space(org) && no_outer_space(project) && no_outer_space(repo) {
        lemma_trim_untouched(org);
        lemma_trim_untouched(project);
        lemma_trim_untouched(repo);
    }
}

/// A locator that ends in `/` names no repository.
pub proof fn lemma_trailing_slash_rejected(url: Seq<char>)
    ensures
        locate(url.push('/')) is None,
{
    let u = url.push('/');
    assert forall|o: Seq<char>, p: Seq<char>, q: Seq<char>| !is_ssh_form(u, o, p, q) by {
        if is_ssh_form(u, o, p, q) {
            lemma_ssh_slashes(u, o, p, q);
            assert(u[u.len() - 1] == '/');
        }
    }
    assert forall|a: Seq<char>, o: Seq<char>, p: Seq<char>, q: Seq<char>|
        !is_https_form(u, a, o, p, q) by {
        if is_https_form(u, a, o, p, q) {
            lemma_https_marks(u, a, o, p, q);
            assert(u[u.len() - 1] == '/');
        }
    }
}

/// A locator without an `@` names no repository: both forms hold one.
pub proof fn lemma_without_principal_rejected(url: Seq<char>)
    requires
        lacks(url, '@'),
    ensures
        locate(url) is None,
{
    reveal_strlit("git@ssh.dev.azure.com:v3/");
    assert forall|o: Seq<char>, p: Seq<char>, q: Seq<char>| !is_ssh_form(url, o, p, q) by {
        if is_ssh_form(url, o, p, q) {
            lemma_ssh_slashes(url, o, p, q);
            assert(url.subrange(0, 25)[3] == '@');
        }
    }
    assert forall|a: Seq<char>, o: Seq<char>, p: Seq<char>, q: Seq<char>|
        !is_https_form(url, a, o, p, q) by {
        if is_https_form(url, a, o, p, q) {
            lemma_https_marks(url, a, o, p, q);
        }
    }
}

/// `lemma_https_marks` for every reading at once.
proof fn lemma_https_marks_all(url: Seq<char>)
    ensures
        forall|a: Seq<char>, o: Seq<char>, p: Seq<char>, q: Seq<char>|
            #[trigger] is_https_form(url, a, o, p, q) ==> https_marks(url, a, o, p, q),
{
    assert forall|a: Seq<char>, o: Seq<char>, p: Seq<char>, q: Seq<char>|
        #[trigger] is_https_form(url, a, o, p, q) implies https_marks(url, a, o, p, q) by {
        lemma_https_marks(url, a, o, p, q);
    }
}

} // verus!
