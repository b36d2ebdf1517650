//! GitHub repository references: parsing what the user types, recognising
//! GitHub remotes, and naming a new repository after a local folder.
use vstd::prelude::*;

use crate::text::{
    char_is_alphanumeric, char_lower, chars_contains, chars_occur_at, chars_of, chars_starts_with,
    contains_seq, has_char, is_alphanumeric, lower, occurs_at, owned, push_all, push_char, push_str,
    starts_with, string_from_chars, trim, trimmed_chars,
};

verus! {

/// A GitHub repository named by its owner and name.
#[derive(Clone, Debug, PartialEq, Eq)]
pub struct GithubRepoRef {
    pub owner: String,
    pub name: String,
}

/// The owner and name of a path; the owner may be left out.
pub struct GithubRepoParts {
    pub owner: Option<String>,
    pub name: String,
}

/// `s` with every trailing `c` removed.
pub open spec fn strip_trailing(s: Seq<char>, c: char) -> Seq<char>
    decreases s.len(),
{
    if s.len() > 0 && s.last() == c {
        strip_trailing(s.drop_last(), c)
    } else {
        s
    }
}

/// `s` with every trailing copy of the non-empty `p` removed.
pub open spec fn strip_suffixes(s: Seq<char>, p: Seq<char>) -> Seq<char>
    decreases s.len(),
{
    if 0 < p.len() <= s.len() && s.skip(s.len() - p.len()) == p {
        strip_suffixes(s.take(s.len() - p.len()), p)
    } else {
        s
    }
}

/// The maximal runs of characters other than `/`, in order.
pub open spec fn segments(s: Seq<char>) -> Seq<Seq<char>>
    decreases s.len(),
{
    if s.len() == 0 {
        Seq::empty()
    } else if s.last() == '/' {
        segments(s.drop_last())
    } else if s.len() >= 2 && s[s.len() - 2] != '/' {
        let p = segments(s.drop_last());
        p.update(p.len() - 1, p.last().push(s.last()))
    } else {
        segments(s.drop_last()).push(seq![s.last()])
    }
}

/// The text names a host other than GitHub: it is a URL or an SSH address
/// that does not mention `github.com`.
pub open spec fn foreign_host(s: Seq<char>) -> bool {
    (contains_seq(s, "://"@) || starts_with(s, "git@"@)) && !contains_seq(s, "github.com"@)
}

/// What follows the first supported GitHub prefix, if one starts `s`.
pub open spec fn after_github_prefix(s: Seq<char>) -> Option<Seq<char>> {
    if starts_with(s, "https://github.com/"@) {
        Some(s.skip("https://github.com/"@.len() as int))
    } else if starts_with(s, "http://github.com/"@) {
        Some(s.skip("http://github.com/"@.len() as int))
    } else if starts_with(s, "ssh://git@github.com/"@) {
        Some(s.skip("ssh://git@github.com/"@.len() as int))
    } else if starts_with(s, "git@github.com:"@) {
        Some(s.skip("git@github.com:"@.len() as int))
    } else if starts_with(s, "github.com/"@) {
        Some(s.skip("github.com/"@.len() as int))
    } else {
        None
    }
}

/// The repository path of a GitHub URL or address: an error for another
/// host, nothing when `s` is no GitHub address, otherwise the path without
/// trailing slashes and `.git` suffixes.
pub open spec fn github_path(s: Seq<char>) -> Result<Option<Seq<char>>, Seq<char>> {
    if foreign_host(s) {
        Err("only github.com repositories are supported in the GitHub setup flow"@)
    } else {
        match after_github_prefix(s) {
            Some(rest) => Ok(Some(strip_suffixes(strip_trailing(rest, '/'), ".git"@))),
            None => Ok(None),
        }
    }
}

/// The message for text that is not `OWNER/NAME`.
pub open spec fn owner_name_form() -> Seq<char> {
    "GitHub repository must be in `OWNER/NAME` form"@
}

/// Owner and name of a path of one or two segments.
pub open spec fn repo_parts(path: Seq<char>) -> Result<(Option<Seq<char>>, Seq<char>), Seq<char>> {
    let segs = segments(path);
    if segs.len() == 1 {
        Ok((None, segs[0]))
    } else if segs.len() == 2 {
        Ok((Some(segs[0]), segs[1]))
    } else {
        Err(owner_name_form())
    }
}

/// The text looks like a path on this machine rather than a repository name.
pub open spec fn local_path_like(s: Seq<char>) -> bool {
    ||| starts_with(s, "/"@)
    ||| starts_with(s, "./"@)
    ||| starts_with(s, "../"@)
    ||| starts_with(s, "~/"@)
    ||| has_char(s, '\\')
}

/// The repository `input` names, as owner and name, with `default_owner`
/// standing in for a missing owner, or the message explaining the refusal.
pub open spec fn parsed_repo_ref(input: Seq<char>, default_owner: Seq<char>) -> Result<
    (Seq<char>, Seq<char>),
    Seq<char>,
> {
    let t = trim(input);
    if t.len() == 0 {
        Err("GitHub repository cannot be blank"@)
    } else {
        let parts = match github_path(t) {
            Err(m) => Err(m),
            Ok(Some(path)) => repo_parts(path),
            Ok(None) => if local_path_like(t) {
                Err(owner_name_form())
            } else {
                repo_parts(t)
            },
        };
        match parts {
            Err(m) => Err(m),
            Ok((owner, name)) => {
                let o = match owner {
                    Some(o) => o,
                    None => default_owner,
                };
                if trim(o).len() == 0 {
                    Err("GitHub repository owner cannot be blank"@)
                } else if trim(name).len() == 0 {
                    Err("GitHub repository name cannot be blank"@)
                } else {
                    Ok((o, name))
                }
            },
        }
    }
}

/// The `OWNER/NAME` a GitHub remote points at, when it names both.
pub open spec fn remote_owner_name(remote: Seq<char>) -> Option<Seq<char>> {
    match github_path(remote) {
        Ok(Some(path)) => match repo_parts(path) {
            Ok((Some(owner), name)) => Some(owner + "/"@ + name),
            _ => None,
        },
        _ => None,
    }
}

/// `a` occurs in one of the messages.
pub open spec fn any_mentions(messages: Seq<String>, a: Seq<char>) -> bool {
    exists|i: int| 0 <= i < messages.len() && contains_seq(messages[i]@, a)
}

impl GithubRepoRef {
    /// `OWNER/NAME`.
    pub fn name_with_owner(&self) -> (r: String)
        ensures
            r@ == self.owner@ + "/"@ + self.name@,
    {
        let mut s = self.owner.clone();
        push_str(&mut s, "/");
        push_str(&mut s, self.name.as_str());
        s
    }

    /// The HTTPS clone URL of the repository.
    pub fn https_remote(&self) -> (r: String)
        ensures
            r@ == "https://github.com/"@ + self.owner@ + "/"@ + self.name@ + ".git"@,
    {
        let mut s = owned("https://github.com/");
        push_str(&mut s, self.owner.as_str());
        push_str(&mut s, "/");
        push_str(&mut s, self.name.as_str());
        push_str(&mut s, ".git");
        s
    }

    /// Whether `remote` is a GitHub remote for this repository.
    pub fn matches_remote(&self, remote: &str) -> (r: bool)
        ensures
            r == (remote_owner_name(remote@) == Some(self.owner@ + "/"@ + self.name@)),
    {
        match github_remote_name_with_owner(remote) {
            Some(found) => {
                let mine = self.name_with_owner();
                crate::text::str_eq(found.as_str(), mine.as_str())
            },
            None => false,
        }
    }
}

/// Index of the last character that is not `c`, plus one.
fn end_without_trailing(v: &Vec<char>, c: char) -> (r: usize)
    ensures
        r <= v@.len(),
        v@.take(r as int) == strip_trailing(v@, c),
{
    let mut end = v.len();
    proof {
        assert(v@.take(end as int) =~= v@);
    }
    while end > 0 && v[end - 1] == c
        invariant
            end <= v@.len(),
            strip_trailing(v@.take(end as int), c) == strip_trailing(v@, c),
        decreases end,
    {
        proof {
            assert(v@.take(end as int).drop_last() =~= v@.take(end - 1));
        }
        end -= 1;
    }
    end
}

/// Shortens `v[..end]` by every trailing copy of `p`.
fn end_without_suffixes(v: &Vec<char>, end: usize, p: &Vec<char>) -> (r: usize)
    requires
        end <= v@.len(),
        p@.len() > 0,
    ensures
        r <= end,
        v@.take(r as int) == strip_suffixes(v@.take(end as int), p@),
{
    let mut e = end;
    while e >= p.len() && chars_occur_at(v, p, e - p.len())
        invariant
            e <= end <= v@.len(),
            p@.len() > 0,
            strip_suffixes(v@.take(e as int), p@) == strip_suffixes(v@.take(end as int), p@),
        decreases e,
    {
        proof {
            let t = v@.take(e as int);
            assert(t.skip(t.len() - p@.len()) =~= v@.subrange(e - p@.len(), e as int));
            assert(t.take(t.len() - p@.len()) =~= v@.take(e - p@.len()));
        }
        e = e - p.len();
    }
    proof {
        let t = v@.take(e as int);
        if e >= p@.len() {
            assert(t.skip(t.len() - p@.len()) =~= v@.subrange(e - p@.len(), e as int));
        }
    }
    e
}

/// Whether `v` starts with the text `prefix`.
fn begins_with(v: &Vec<char>, prefix: &str) -> (r: bool)
    ensures
        r == starts_with(v@, prefix@),
{
    let p = chars_of(prefix);
    chars_starts_with(v, &p)
}

/// Characters of `v` from `from` on.
fn chars_from(v: &Vec<char>, from: usize) -> (r: Vec<char>)
    requires
        from <= v@.len(),
    ensures
        r@ == v@.skip(from as int),
{
    let mut out: Vec<char> = Vec::new();
    let mut i = from;
    while i < v.len()
        invariant
            from <= i <= v@.len(),
            out@ == v@.subrange(from as int, i as int),
        decreases v.len() - i,
    {
        out.push(v[i]);
        proof {
            assert(v@.subrange(from as int, i + 1) =~= v@.subrange(from as int, i as int).push(
                v@[i as int],
            ));
        }
        i += 1;
    }
    proof {
        assert(v@.subrange(from as int, v@.len() as int) =~= v@.skip(from as int));
    }
    out
}

/// The first `n` characters of `v`.
fn chars_upto(v: &Vec<char>, n: usize) -> (r: Vec<char>)
    requires
        n <= v@.len(),
    ensures
        r@ == v@.take(n as int),
{
    let mut out: Vec<char> = Vec::new();
    let mut i: usize = 0;
    while i < n
        invariant
            i <= n <= v@.len(),
            out@ == v@.take(i as int),
        decreases n - i,
    {
        out.push(v[i]);
        proof {
            assert(v@.take(i + 1) =~= v@.take(i as int).push(v@[i as int]));
        }
        i += 1;
    }
    out
}

/// What follows the first supported GitHub prefix of `v`, if any.
fn strip_github_prefix(v: &Vec<char>) -> (r: Option<Vec<char>>)
    ensures
        match r {
            Some(rest) => after_github_prefix(v@) == Some(rest@),
            None => after_github_prefix(v@) is None,
        },
{
    let p0 = chars_of("https://github.com/");
    if chars_starts_with(v, &p0) {
        return Some(chars_from(v, p0.len()));
    }
    let p1 = chars_of("http://github.com/");
    if chars_starts_with(v, &p1) {
        return Some(chars_from(v, p1.len()));
    }
    let p2 = chars_of("ssh://git@github.com/");
    if chars_starts_with(v, &p2) {
        return Some(chars_from(v, p2.len()));
    }
    let p3 = chars_of("git@github.com:");
    if chars_starts_with(v, &p3) {
        return Some(chars_from(v, p3.len()));
    }
    let p4 = chars_of("github.com/");
    if chars_starts_with(v, &p4) {
        return Some(chars_from(v, p4.len()));
    }
    None
}

/// The repository path of a GitHub URL or address (see [`github_path`]).
fn strip_supported_github_path(v: &Vec<char>) -> (r: Result<Option<Vec<char>>, String>)
    ensures
        match r {
            Ok(Some(p)) => github_path(v@) == Ok::<Option<Seq<char>>, Seq<char>>(Some(p@)),
            Ok(None) => github_path(v@) == Ok::<Option<Seq<char>>, Seq<char>>(None),
            Err(m) => github_path(v@) == Err::<Option<Seq<char>>, Seq<char>>(m@),
        },
{
    let scheme = chars_of("://");
    let host = chars_of("github.com");
    if (chars_contains(v, &scheme) || begins_with(v, "git@")) && !chars_contains(v, &host) {
        return Err(owned("only github.com repositories are supported in the GitHub setup flow"));
    }
    match strip_github_prefix(v) {
        Some(rest) => {
            let end = end_without_trailing(&rest, '/');
            let suffix = chars_of(".git");
            proof {
                reveal_strlit(".git");
            }
            let e = end_without_suffixes(&rest, end, &suffix);
            Ok(Some(chars_upto(&rest, e)))
        },
        None => Ok(None),
    }
}

/// The views of a list of character vectors.
pub open spec fn seq_views(v: Seq<Vec<char>>) -> Seq<Seq<char>> {
    v.map_values(|x: Vec<char>| x@)
}

/// A path that ends in a character other than `/` has a last segment.
proof fn lemma_segments_nonempty(s: Seq<char>)
    requires
        s.len() > 0,
        s.last() != '/',
    ensures
        segments(s).len() > 0,
    decreases s.len(),
{
    if s.len() >= 2 && s[s.len() - 2] != '/' {
        lemma_segments_nonempty(s.drop_last());
    }
}

/// The maximal runs of characters other than `/` in `v`.
fn split_segments(v: &Vec<char>) -> (r: Vec<Vec<char>>)
    ensures
        seq_views(r@) == segments(v@),
{
    let mut segs: Vec<Vec<char>> = Vec::new();
    let mut i: usize = 0;
    proof {
        assert(seq_views(segs@) =~= segments(v@.take(0)));
    }
    while i < v.len()
        invariant
            i <= v@.len(),
            seq_views(segs@) == segments(v@.take(i as int)),
            i > 0 && v@[i - 1] != '/' ==> segs@.len() > 0,
        decreases v.len() - i,
    {
        let c = v[i];
        let ghost t = v@.take(i + 1);
        proof {
            assert(t.drop_last() =~= v@.take(i as int));
            assert(t.last() == c);
        }
        if c == '/' {
        } else if i > 0 && v[i - 1] != '/' {
            proof {
                assert(t[t.len() - 2] == v@[i - 1]);
            }
            let mut last = segs.pop().unwrap();
            last.push(c);
            segs.push(last);
            proof {
                assert(seq_views(segs@) =~= segments(t));
            }
        } else {
            proof {
                if i > 0 {
                    assert(t[t.len() - 2] == v@[i - 1]);
                }
            }
            let mut fresh: Vec<char> = Vec::new();
            fresh.push(c);
            segs.push(fresh);
            proof {
                assert(fresh@ =~= seq![c]);
                assert(seq_views(segs@) =~= segments(t));
            }
        }
        i += 1;
    }
    proof {
        assert(v@.take(i as int) =~= v@);
    }
    segs
}

/// Owner and name of a path of one or two segments (see [`repo_parts`]).
fn parse_repo_parts(path: &Vec<char>) -> (r: Result<GithubRepoParts, String>)
    ensures
        match r {
            Ok(p) => repo_parts(path@) == Ok::<(Option<Seq<char>>, Seq<char>), Seq<char>>(
                (
                    match p.owner {
                        Some(o) => Some(o@),
                        None => None,
                    },
                    p.name@,
                ),
            ),
            Err(m) => repo_parts(path@) == Err::<(Option<Seq<char>>, Seq<char>), Seq<char>>(m@),
        },
{
    let segs = split_segments(path);
    proof {
        if segs@.len() >= 1 {
            assert(seq_views(segs@)[0] == segs@[0]@);
        }
        if segs@.len() >= 2 {
            assert(seq_views(segs@)[1] == segs@[1]@);
        }
    }
    if segs.len() == 1 {
        Ok(GithubRepoParts { owner: None, name: string_from_chars(&segs[0]) })
    } else if segs.len() == 2 {
        Ok(
            GithubRepoParts {
                owner: Some(string_from_chars(&segs[0])),
                name: string_from_chars(&segs[1]),
            },
        )
    } else {
        Err(owned("GitHub repository must be in `OWNER/NAME` form"))
    }
}

/// Whether the text looks like a path on this machine.
fn looks_like_local_path(v: &Vec<char>) -> (r: bool)
    ensures
        r == local_path_like(v@),
{
    begins_with(v, "/") || begins_with(v, "./") || begins_with(v, "../") || begins_with(v, "~/")
        || crate::text::chars_has(v, '\\')
}

/// Parses a repository typed as `OWNER/NAME`, `NAME` or a GitHub URL.
///
/// A missing owner is taken from `default_owner`.
pub fn parse_github_repo_ref(input: &str, default_owner: &str) -> (r: Result<GithubRepoRef, String>)
    ensures
        match r {
            Ok(repo) => parsed_repo_ref(input@, default_owner@) == Ok::<
                (Seq<char>, Seq<char>),
                Seq<char>,
            >((repo.owner@, repo.name@)),
            Err(m) => parsed_repo_ref(input@, default_owner@) == Err::<
                (Seq<char>, Seq<char>),
                Seq<char>,
            >(m@),
        },
{
    let t = trimmed_chars(input);
    if t.len() == 0 {
        return Err(owned("GitHub repository cannot be blank"));
    }
    let parts = match strip_supported_github_path(&t) {
        Err(m) => {
            return Err(m);
        },
        Ok(Some(path)) => parse_repo_parts(&path),
        Ok(None) => {
            if looks_like_local_path(&t) {
                return Err(owned("GitHub repository must be in `OWNER/NAME` form"));
            }
            parse_repo_parts(&t)
        },
    };
    let parts = match parts {
        Err(m) => {
            return Err(m);
        },
        Ok(p) => p,
    };
    let owner = match parts.owner {
        Some(o) => o,
        None => owned(default_owner),
    };
    let owner_chars = trimmed_chars(owner.as_str());
    if owner_chars.len() == 0 {
        return Err(owned("GitHub repository owner cannot be blank"));
    }
    let name_chars = trimmed_chars(parts.name.as_str());
    if name_chars.len() == 0 {
        return Err(owned("GitHub repository name cannot be blank"));
    }
    Ok(GithubRepoRef { owner, name: parts.name })
}

/// The `OWNER/NAME` a GitHub remote points at, when it names both.
pub fn github_remote_name_with_owner(remote: &str) -> (r: Option<String>)
    ensures
        match r {
            Some(s) => remote_owner_name(remote@) == Some(s@),
            None => remote_owner_name(remote@) is None,
        },
{
    let v = chars_of(remote);
    let path = match strip_supported_github_path(&v) {
        Ok(Some(p)) => p,
        _ => {
            return None;
        },
    };
    match parse_repo_parts(&path) {
        Ok(parts) => match parts.owner {
            Some(owner) => {
                let mut s = owner;
                push_str(&mut s, "/");
                push_str(&mut s, parts.name.as_str());
                Some(s)
            },
            None => None,
        },
        Err(_) => None,
    }
}

/// Whether any message contains `needle`.
fn mentions(messages: &Vec<String>, needle: &str) -> (r: bool)
    ensures
        r == any_mentions(messages@, needle@),
{
    let mut i: usize = 0;
    while i < messages.len()
        invariant
            i <= messages@.len(),
            forall|k: int| 0 <= k < i ==> !contains_seq(#[trigger] messages@[k]@, needle@),
        decreases messages.len() - i,
    {
        if crate::text::str_contains(messages[i].as_str(), needle) {
            return true;
        }
        i += 1;
    }
    false
}

/// Whether a failure, given as the messages of its cause chain, says that
/// GitHub does not know the repository yet.
pub fn github_repo_not_ready(causes: &Vec<String>) -> (r: bool)
    ensures
        r == any_mentions(causes@, "Repository not found"@),
{
    mentions(causes, "Repository not found")
}

/// How many times connecting a freshly created repository is tried.
pub const MAX_CONNECT_ATTEMPTS: usize = 5;

/// Whether a failed attempt (counted from 1) at connecting a freshly
/// created repository is tried again: only while attempts remain and only
/// when GitHub does not know the repository yet.
pub fn retry_connect(attempt: usize, causes: &Vec<String>) -> (r: bool)
    ensures
        r == (attempt < MAX_CONNECT_ATTEMPTS && any_mentions(causes@, "Repository not found"@)),
{
    attempt < MAX_CONNECT_ATTEMPTS && github_repo_not_ready(causes)
}

/// Whether a failure, given as the messages of its cause chain, says that
/// the repository to create exists already.
pub fn github_repo_already_exists(causes: &Vec<String>) -> (r: bool)
    ensures
        r == (any_mentions(causes@, "Name already exists on this account"@) || any_mentions(
            causes@,
            "already exists"@,
        )),
{
    mentions(causes, "Name already exists on this account") || mentions(causes, "already exists")
}

/// The remote to connect: the existing `origin` when it already points at
/// the repository, otherwise the repository's HTTPS URL.
pub fn github_remote_for_connection(existing_remote: Option<String>, github_repo: &GithubRepoRef) -> (r:
    String)
    ensures
        r@ == (match existing_remote {
            Some(e) => if remote_owner_name(e@) == Some(github_repo.owner@ + "/"@ + github_repo.name@) {
                e@
            } else {
                "https://github.com/"@ + github_repo.owner@ + "/"@ + github_repo.name@ + ".git"@
            },
            None => "https://github.com/"@ + github_repo.owner@ + "/"@ + github_repo.name@
                + ".git"@,
        }),
{
    match existing_remote {
        Some(existing) => {
            if github_repo.matches_remote(existing.as_str()) {
                existing
            } else {
                github_repo.https_remote()
            }
        },
        None => github_repo.https_remote(),
    }
}

/// The file name of a path, as `Path::file_name` gives it, when it is text.
pub uninterp spec fn path_file_name(path: Seq<char>) -> Option<Seq<char>>;

/// The last component of `path` (wraps `std::path::Path::file_name`, then
/// `OsStr::to_str`).
///
/// Its result is named [`path_file_name`]; nothing more is stated of it
/// here: the standard library documents it as the final normal component,
/// and no component at all for a path ending in `..` or for a root.
#[verifier::external_body]
fn file_name_of(path: &str) -> (r: Option<String>)
    ensures
        match r {
            Some(s) => path_file_name(path@) == Some(s@),
            None => path_file_name(path@) is None,
        },
{
    std::path::Path::new(path).file_name().and_then(|name| name.to_str()).map(|name| name.to_owned())
}

/// Characters that may start or end a repository name only after trimming.
pub open spec fn is_edge_char(c: char) -> bool {
    c == '-' || c == '_' || c == '.'
}

/// How one character of a folder name appears in a repository name.
pub open spec fn repo_name_char(c: char) -> char {
    if is_alphanumeric(c) {
        lower(c)
    } else if is_edge_char(c) {
        c
    } else {
        '-'
    }
}

/// The mapped characters of `s`, with no leading dash and no two dashes in
/// a row.
pub open spec fn collapse_dashes(s: Seq<char>) -> Seq<char>
    decreases s.len(),
{
    if s.len() == 0 {
        s
    } else {
        let p = collapse_dashes(s.drop_last());
        let m = repo_name_char(s.last());
        if m == '-' && (p.len() == 0 || p.last() == '-') {
            p
        } else {
            p.push(m)
        }
    }
}

/// `s` without leading `-`, `_` and `.`.
pub open spec fn strip_leading_edges(s: Seq<char>) -> Seq<char>
    decreases s.len(),
{
    if s.len() > 0 && is_edge_char(s[0]) {
        strip_leading_edges(s.drop_first())
    } else {
        s
    }
}

/// `s` without trailing `-`, `_` and `.`.
pub open spec fn strip_trailing_edges(s: Seq<char>) -> Seq<char>
    decreases s.len(),
{
    if s.len() > 0 && is_edge_char(s.last()) {
        strip_trailing_edges(s.drop_last())
    } else {
        s
    }
}

/// The repository name for a local folder name: sanitised, or `budget`
/// when nothing usable remains.
pub open spec fn repo_name_for(file_name: Option<Seq<char>>) -> Seq<char> {
    let raw = match file_name {
        Some(f) => if f.len() > 0 {
            f
        } else {
            "budget"@
        },
        None => "budget"@,
    };
    let t = strip_trailing_edges(strip_leading_edges(collapse_dashes(raw)));
    if t.len() == 0 {
        "budget"@
    } else {
        t
    }
}

/// Maps one folder-name character into the repository-name alphabet.
fn map_repo_name_char(c: char) -> (r: char)
    ensures
        r == repo_name_char(c),
{
    if char_is_alphanumeric(c) {
        char_lower(c)
    } else if c == '-' || c == '_' || c == '.' {
        c
    } else {
        '-'
    }
}

/// The repository name derived from a folder's file name (see
/// [`repo_name_for`]).
pub fn github_repo_name_from_file_name(file_name: Option<String>) -> (r: String)
    ensures
        r@ == repo_name_for(
            match file_name {
                Some(f) => Some(f@),
                None => None,
            },
        ),
{
    let raw: Vec<char> = match &file_name {
        Some(f) => {
            let v = chars_of(f.as_str());
            if v.len() > 0 {
                v
            } else {
                chars_of("budget")
            }
        },
        None => chars_of("budget"),
    };
    let mut name: Vec<char> = Vec::new();
    let mut i: usize = 0;
    while i < raw.len()
        invariant
            i <= raw@.len(),
            name@ == collapse_dashes(raw@.take(i as int)),
        decreases raw.len() - i,
    {
        let m = map_repo_name_char(raw[i]);
        proof {
            assert(raw@.take(i + 1).drop_last() =~= raw@.take(i as int));
        }
        if m == '-' && (name.len() == 0 || name[name.len() - 1] == '-') {
        } else {
            name.push(m);
        }
        i += 1;
    }
    proof {
        assert(raw@.take(i as int) =~= raw@);
    }
    let n = name.len();
    let mut start: usize = 0;
    proof {
        assert(name@.skip(0) =~= name@);
    }
    while start < n && (name[start] == '-' || name[start] == '_' || name[start] == '.')
        invariant
            start <= n == name@.len(),
            strip_leading_edges(name@.skip(start as int)) == strip_leading_edges(name@),
        decreases n - start,
    {
        proof {
            assert(name@.skip(start as int).drop_first() =~= name@.skip(start + 1));
        }
        start += 1;
    }
    let mut end: usize = n;
    proof {
        assert(name@.subrange(start as int, n as int) =~= name@.skip(start as int));
    }
    while end > start && (name[end - 1] == '-' || name[end - 1] == '_' || name[end - 1] == '.')
        invariant
            start <= end <= n == name@.len(),
            strip_trailing_edges(name@.subrange(start as int, end as int))
                == strip_trailing_edges(name@.skip(start as int)),
        decreases end,
    {
        proof {
            assert(name@.subrange(start as int, end as int).drop_last() =~= name@.subrange(
                start as int,
                end - 1,
            ));
        }
        end -= 1;
    }
    if start == end {
        owned("budget")
    } else {
        let mut out = String::new();
        let mut k = start;
        while k < end
            invariant
                start <= k <= end <= name@.len(),
                out@ == name@.subrange(start as int, k as int),
            decreases end - k,
        {
            push_char(&mut out, name[k]);
            proof {
                assert(name@.subrange(start as int, k + 1) =~= name@.subrange(
                    start as int,
                    k as int,
                ).push(name@[k as int]));
            }
            k += 1;
        }
        out
    }
}

/// Names a new GitHub repository after the local budget folder.
pub fn default_github_repo_name(local_repo: &str) -> (r: String)
    ensures
        r@ == repo_name_for(path_file_name(local_repo@)),
{
    github_repo_name_from_file_name(file_name_of(local_repo))
}

/// A repository owner or name as GitHub spells them: letters, digits, `-`,
/// `_` and `.`, at least one character.
pub open spec fn plain_repo_part(s: Seq<char>) -> bool {
    s.len() > 0 && forall|i: int| 0 <= i < s.len() ==> is_alphanumeric(#[trigger] s[i]) || is_edge_char(s[i])
}

/// A character of the plain alphabet is no `/`, no whitespace, and none of
/// `:`, `@`, `~` or `\\`.
proof fn lemma_plain_char(c: char)
    requires
        is_alphanumeric(c) || is_edge_char(c),
    ensures
        c != '/',
        c != ':',
        c != '@',
        c != '~',
        c != '\\',
        !crate::text::is_whitespace(c),
{
}

/// A run without `/` is one segment.
proof fn lemma_segments_single(a: Seq<char>)
    requires
        a.len() > 0,
        forall|i: int| 0 <= i < a.len() ==> a[i] != '/',
    ensures
        segments(a) == seq![a],
    decreases a.len(),
{
    assert(a[a.len() - 1] != '/');
    if a.len() == 1 {
        assert(a.drop_last() =~= Seq::<char>::empty());
        assert(seq![a.last()] =~= a);
        assert(segments(a.drop_last()) == Seq::<Seq<char>>::empty());
        assert(segments(a) == segments(a.drop_last()).push(seq![a.last()]));
        assert(Seq::<Seq<char>>::empty().push(seq![a.last()]) =~= seq![a]);
    } else {
        assert(a[a.len() - 2] != '/');
        assert(segments(a) == segments(a.drop_last()).update(
            segments(a.drop_last()).len() - 1,
            segments(a.drop_last()).last().push(a.last()),
        ));
        lemma_segments_single(a.drop_last());
        assert(a[a.len() - 2] == a.drop_last().last());
        assert(a.drop_last().push(a.last()) =~= a);
        assert(seq![a.drop_last()].update(0, a.drop_last().push(a.last())) =~= seq![a]);
    }
}

/// Two runs without `/` joined by one `/` are two segments.
proof fn lemma_segments_pair(a: Seq<char>, b: Seq<char>)
    requires
        a.len() > 0,
        b.len() > 0,
        forall|i: int| 0 <= i < a.len() ==> a[i] != '/',
        forall|i: int| 0 <= i < b.len() ==> b[i] != '/',
    ensures
        segments(a + seq!['/'] + b) == seq![a, b],
    decreases b.len(),
{
    let s = a + seq!['/'] + b;
    if b.len() == 1 {
        lemma_segments_single(a);
        assert(s.drop_last() =~= a.push('/'));
        assert(a.push('/').drop_last() =~= a);
        assert(s[s.len() - 2] == '/');
        assert(s.last() == b[0]);
        assert(b[0] != '/');
        assert(seq![s.last()] =~= b);
        assert(segments(s) == segments(s.drop_last()).push(seq![s.last()]));
        assert(segments(a.push('/')) == segments(a));
        assert(seq![a].push(seq![s.last()]) =~= seq![a, b]);
    } else {
        lemma_segments_pair(a, b.drop_last());
        assert(s.drop_last() =~= a + seq!['/'] + b.drop_last());
        assert(s[s.len() - 2] == b[b.len() - 2]);
        assert(b[b.len() - 2] != '/');
        assert(s.last() == b.last());
        assert(b[b.len() - 1] != '/');
        assert(segments(s) == segments(s.drop_last()).update(
            segments(s.drop_last()).len() - 1,
            segments(s.drop_last()).last().push(s.last()),
        ));
        assert(b.drop_last().push(b.last()) =~= b);
        assert(seq![a, b.drop_last()].update(1, b.drop_last().push(b.last())) =~= seq![a, b]);
    }
}

/// Text whose characters are never `c` does not contain a needle holding
/// `c` at position `k`.
proof fn lemma_no_occurrence(t: Seq<char>, needle: Seq<char>, k: int)
    requires
        0 <= k < needle.len(),
        forall|i: int| 0 <= i < t.len() ==> t[i] != needle[k],
    ensures
        !contains_seq(t, needle),
        !starts_with(t, needle),
{
    if contains_seq(t, needle) {
        let i = choose|i: int| occurs_at(t, needle, i);
        assert(t.subrange(i, i + needle.len())[k] == t[i + k]);
    }
    if starts_with(t, needle) {
        assert(t.take(needle.len() as int)[k] == t[k]);
    }
}

/// Facts about `o/n` for plain parts.
proof fn lemma_joined_chars(o: Seq<char>, n: Seq<char>)
    requires
        plain_repo_part(o),
        plain_repo_part(n),
    ensures
        forall|i: int|
            0 <= i < (o + "/"@ + n).len() ==> (#[trigger] (o + "/"@ + n)[i] == '/' || is_alphanumeric(
                (o + "/"@ + n)[i],
            ) || is_edge_char((o + "/"@ + n)[i])),
        (o + "/"@ + n) == o + seq!['/'] + n,
{
    reveal_strlit("/");
    assert("/"@ =~= seq!['/']);
}

/// Parsing what [`GithubRepoRef::name_with_owner`] prints gives the same
/// owner and name back, for owners and names in GitHub's alphabet (other
/// than the owners `.`, `..` and `github.com`, which read as a path or a
/// host).
pub proof fn lemma_parse_name_with_owner(o: Seq<char>, n: Seq<char>, default_owner: Seq<char>)
    requires
        plain_repo_part(o),
        plain_repo_part(n),
        o != "."@,
        o != ".."@,
        o != "github.com"@,
    ensures
        parsed_repo_ref(o + "/"@ + n, default_owner) == Ok::<(Seq<char>, Seq<char>), Seq<char>>(
            (o, n),
        ),
{
    reveal_strlit("/");
    reveal_strlit("://");
    reveal_strlit("git@");
    reveal_strlit("github.com");
    reveal_strlit("https://github.com/");
    reveal_strlit("http://github.com/");
    reveal_strlit("ssh://git@github.com/");
    reveal_strlit("git@github.com:");
    reveal_strlit("github.com/");
    reveal_strlit("./");
    reveal_strlit("../");
    reveal_strlit("~/");
    reveal_strlit(".");
    reveal_strlit("..");
    let t = o + "/"@ + n;
    lemma_joined_chars(o, n);
    assert(t =~= o + seq!['/'] + n);
    assert forall|i: int| 0 <= i < o.len() implies t[i] == o[i] && o[i] != '/' by {
        lemma_plain_char(o[i]);
    }
    assert forall|i: int| 0 <= i < n.len() implies t[o.len() + 1 + i] == n[i] && n[i] != '/' by {
        lemma_plain_char(n[i]);
    }
    assert(t[o.len() as int] == '/');
    // The text is its own trim.
    lemma_plain_char(o[0]);
    lemma_plain_char(n[n.len() - 1]);
    assert(t[0] == o[0]);
    assert(t.last() == n[n.len() - 1]);
    assert(crate::text::trim_start(t) == t);
    assert(trim(t) == t);
    assert(trim(o) == o) by {
        lemma_plain_char(o.last());
    }
    assert(trim(n) == n) by {
        assert(crate::text::trim_start(n) == n);
    }
    // It names no host.
    assert forall|i: int| 0 <= i < t.len() implies t[i] != ':' && t[i] != '@' && t[i] != '~' && t[i]
        != '\\' by {
        if i < o.len() {
            lemma_plain_char(o[i]);
        } else if i > o.len() {
            lemma_plain_char(n[i - o.len() - 1]);
        }
    }
    lemma_no_occurrence(t, "://"@, 0);
    lemma_no_occurrence(t, "git@"@, 3);
    lemma_no_occurrence(t, "https://github.com/"@, 5);
    lemma_no_occurrence(t, "http://github.com/"@, 4);
    lemma_no_occurrence(t, "ssh://git@github.com/"@, 3);
    lemma_no_occurrence(t, "git@github.com:"@, 3);
    lemma_no_occurrence(t, "~/"@, 0);
    assert(!foreign_host(t));
    if starts_with(t, "github.com/"@) {
        assert(t.take(11) == "github.com/"@);
        assert(t.take(11)[10] == t[10]);
        assert(t[10] == '/');
        assert(o.len() <= 10);
        if o.len() < 10 {
            assert(t.take(11)[o.len() as int] == t[o.len() as int]);
            assert(t[o.len() as int] == "github.com/"@[o.len() as int]);
        }
        assert forall|i: int| 0 <= i < 10 implies o[i] == "github.com"@[i] by {
            assert(t.take(11)[i] == t[i]);
        }
        assert(o =~= "github.com"@);
    }
    assert(after_github_prefix(t) is None);
    assert(!starts_with(t, "/"@));
    if starts_with(t, "./"@) {
        assert(t.take(2)[1] == t[1]);
        assert(t.take(2)[0] == t[0]);
        assert(t[1] == '/');
        assert(o =~= "."@);
    }
    if starts_with(t, "../"@) {
        assert(t.take(3)[2] == t[2]);
        assert(t.take(3)[1] == t[1]);
        assert(t.take(3)[0] == t[0]);
        assert(t[2] == '/');
        if o.len() == 1 {
            assert(t[1] == '/');
        }
        assert(o =~= ".."@);
    }
    assert(!has_char(t, '\\'));
    assert(!local_path_like(t));
    assert forall|i: int| 0 <= i < o.len() implies o[i] != '/' by {
        lemma_plain_char(o[i]);
    }
    assert forall|i: int| 0 <= i < n.len() implies n[i] != '/' by {
        lemma_plain_char(n[i]);
    }
    lemma_segments_pair(o, n);
}

/// A name that does not end in `.git` keeps `OWNER/NAME` whole when trailing
/// `.git` suffixes are stripped.
proof fn lemma_core_keeps_name(o: Seq<char>, n: Seq<char>)
    requires
        plain_repo_part(o),
        plain_repo_part(n),
        !(n.len() >= 4 && n.skip(n.len() - 4) == ".git"@),
    ensures
        strip_suffixes(o + "/"@ + n + ".git"@, ".git"@) == o + "/"@ + n,
{
    reveal_strlit("/");
    reveal_strlit(".git");
    let core = o + "/"@ + n;
    let rest = core + ".git"@;
    lemma_joined_chars(o, n);
    assert(rest.skip(rest.len() - 4) =~= ".git"@);
    assert(rest.take(rest.len() - 4) =~= core);
    if core.len() >= 4 && core.skip(core.len() - 4) == ".git"@ {
        if n.len() >= 4 {
            assert(n.skip(n.len() - 4) =~= core.skip(core.len() - 4));
        } else {
            let k = 3 - n.len();
            assert(core[core.len() - 4 + k] == '/');
            assert(core.skip(core.len() - 4)[k] == core[core.len() - 4 + k]);
            assert(".git"@[k] != '/');
        }
    }
    assert(strip_suffixes(core, ".git"@) == core);
}

/// The HTTPS URL of a repository is a GitHub address whose path is
/// `OWNER/NAME`.
proof fn lemma_https_remote_path(o: Seq<char>, n: Seq<char>)
    requires
        plain_repo_part(o),
        plain_repo_part(n),
        !(n.len() >= 4 && n.skip(n.len() - 4) == ".git"@),
    ensures
        github_path("https://github.com/"@ + o + "/"@ + n + ".git"@) == Ok::<
            Option<Seq<char>>,
            Seq<char>,
        >(Some(o + "/"@ + n)),
{
    reveal_strlit(".git");
    reveal_strlit("://");
    reveal_strlit("github.com");
    reveal_strlit("https://github.com/");
    let p = "https://github.com/"@;
    let core = o + "/"@ + n;
    let remote = p + o + "/"@ + n + ".git"@;
    let rest = core + ".git"@;
    assert(remote =~= p + rest);
    assert(remote.subrange(5, 8) =~= "://"@);
    assert(occurs_at(remote, "://"@, 5));
    assert(remote.subrange(8, 18) =~= "github.com"@);
    assert(occurs_at(remote, "github.com"@, 8));
    assert(!foreign_host(remote));
    assert(remote.take(19) =~= p);
    assert(remote.skip(19) =~= rest);
    assert(after_github_prefix(remote) == Some(rest));
    assert(rest.last() == 't');
    assert(strip_trailing(rest, '/') == rest);
    lemma_core_keeps_name(o, n);
}

/// The HTTPS URL of a repository is recognised as a remote of that same
/// repository, for owners and names in GitHub's alphabet and names that do
/// not themselves end in `.git`.
pub proof fn lemma_https_remote_matches(o: Seq<char>, n: Seq<char>)
    requires
        plain_repo_part(o),
        plain_repo_part(n),
        !(n.len() >= 4 && n.skip(n.len() - 4) == ".git"@),
    ensures
        remote_owner_name("https://github.com/"@ + o + "/"@ + n + ".git"@) == Some(o + "/"@ + n),
{
    lemma_https_remote_path(o, n);
    lemma_joined_chars(o, n);
    assert forall|i: int| 0 <= i < n.len() implies n[i] != '/' by {
        lemma_plain_char(n[i]);
    }
    assert forall|i: int| 0 <= i < o.len() implies o[i] != '/' by {
        lemma_plain_char(o[i]);
    }
    lemma_segments_pair(o, n);
}

} // verus!
