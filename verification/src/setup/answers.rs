//! Reading the answers typed at the setup prompts.
use vstd::prelude::*;

use crate::setup::github::{parse_github_repo_ref, parsed_repo_ref, GithubRepoRef};
use crate::setup::plan::SetupMode;
use crate::text::{char_lower, lower, trim, trim_str, trimmed_chars};

verus! {

/// The setup mode an answer picks: empty or `1` creates on GitHub, `2`
/// connects, `3` stays local, `4` adopts a folder; anything else asks again.
pub open spec fn mode_answer(t: Seq<char>) -> Option<SetupMode> {
    if t.len() == 0 || t == seq!['1'] {
        Some(SetupMode::GithubCreate)
    } else if t == seq!['2'] {
        Some(SetupMode::GithubConnect)
    } else if t == seq!['3'] {
        Some(SetupMode::LocalOnly)
    } else if t == seq!['4'] {
        Some(SetupMode::AdoptLocal)
    } else {
        None
    }
}

/// Reads the answer to the setup-mode prompt; `None` asks again.
pub fn setup_mode_answer(input: &str) -> (r: Option<SetupMode>)
    ensures
        r == mode_answer(trim(input@)),
{
    let t = trimmed_chars(input);
    if t.len() == 0 {
        return Some(SetupMode::GithubCreate);
    }
    if t.len() != 1 {
        proof {
            assert(t@ != seq!['1'] && t@ != seq!['2'] && t@ != seq!['3'] && t@ != seq!['4']);
        }
        return None;
    }
    let c = t[0];
    proof {
        assert(t@ =~= seq![c]);
    }
    if c == '1' {
        Some(SetupMode::GithubCreate)
    } else if c == '2' {
        Some(SetupMode::GithubConnect)
    } else if c == '3' {
        Some(SetupMode::LocalOnly)
    } else if c == '4' {
        Some(SetupMode::AdoptLocal)
    } else {
        None
    }
}

/// `s` with ASCII letters lower-cased.
pub open spec fn lowered(s: Seq<char>) -> Seq<char> {
    s.map_values(|c: char| lower(c))
}

/// The yes/no an answer gives: empty takes the default; `y`, `yes`, `n`
/// and `no` in any case decide; anything else asks again.
pub open spec fn yes_no(t: Seq<char>, default: bool) -> Option<bool> {
    let l = lowered(t);
    if t.len() == 0 {
        Some(default)
    } else if l == seq!['y'] || l == seq!['y', 'e', 's'] {
        Some(true)
    } else if l == seq!['n'] || l == seq!['n', 'o'] {
        Some(false)
    } else {
        None
    }
}

/// Reads the answer to a yes/no prompt; `None` asks again.
pub fn yes_no_answer(input: &str, default: bool) -> (r: Option<bool>)
    ensures
        r == yes_no(trim(input@), default),
{
    let t = trimmed_chars(input);
    let mut l: Vec<char> = Vec::new();
    let mut i: usize = 0;
    while i < t.len()
        invariant
            i <= t@.len(),
            l@ == lowered(t@.take(i as int)),
        decreases t.len() - i,
    {
        l.push(char_lower(t[i]));
        proof {
            assert(lowered(t@.take(i + 1)) =~= lowered(t@.take(i as int)).push(lower(t@[i as int])));
        }
        i += 1;
    }
    proof {
        assert(t@.take(i as int) =~= t@);
    }
    if t.len() == 0 {
        return Some(default);
    }
    let n = l.len();
    if (n == 1 && l[0] == 'y') || (n == 3 && l[0] == 'y' && l[1] == 'e' && l[2] == 's') {
        proof {
            if n == 1 {
                assert(l@ =~= seq!['y']);
            } else {
                assert(l@ =~= seq!['y', 'e', 's']);
            }
        }
        Some(true)
    } else if (n == 1 && l[0] == 'n') || (n == 2 && l[0] == 'n' && l[1] == 'o') {
        proof {
            if n == 1 {
                assert(l@ =~= seq!['n']);
            } else {
                assert(l@ =~= seq!['n', 'o']);
            }
        }
        Some(false)
    } else {
        proof {
            if n == 1 {
                assert(l@ != seq!['y'] && l@ != seq!['n']);
            }
        }
        None
    }
}

/// Reads the answer to the remote prompt: the trimmed text, or `None` to
/// ask again when it is blank.
pub fn remote_answer(input: &str) -> (r: Option<String>)
    ensures
        match r {
            Some(s) => trim(input@).len() > 0 && s@ == trim(input@),
            None => trim(input@).len() == 0,
        },
{
    let t = trim_str(input);
    if t.as_str().unicode_len() == 0 {
        None
    } else {
        Some(t)
    }
}

/// Reads the answer to a GitHub repository prompt: blank keeps the default,
/// anything else is parsed, its refusal shown before asking again.
pub fn github_repo_answer(input: &str, default: &GithubRepoRef, default_owner: &str) -> (r: Result<
    GithubRepoRef,
    String,
>)
    ensures
        trim(input@).len() == 0 ==> (r matches Ok(g) && g.owner@ == default.owner@ && g.name@
            == default.name@),
        trim(input@).len() > 0 ==> match r {
            Ok(g) => parsed_repo_ref(trim(input@), default_owner@) == Ok::<
                (Seq<char>, Seq<char>),
                Seq<char>,
            >((g.owner@, g.name@)),
            Err(m) => parsed_repo_ref(trim(input@), default_owner@) == Err::<
                (Seq<char>, Seq<char>),
                Seq<char>,
            >(m@),
        },
{
    let t = trim_str(input);
    if t.as_str().unicode_len() == 0 {
        return Ok(GithubRepoRef { owner: default.owner.clone(), name: default.name.clone() });
    }
    parse_github_repo_ref(t.as_str(), default_owner)
}

/// Where a typed repository path points: `~` and `~/…` are taken from the
/// home folder, which must be known; anything else is used as typed.
pub open spec fn expanded_path(input: Seq<char>, home: Option<Seq<char>>) -> Result<Seq<char>, Seq<char>> {
    if input == seq!['~'] || (input.len() >= 2 && input[0] == '~' && input[1] == '/') {
        match home {
            Some(h) => Ok(if input.len() >= 2 {
                h + seq!['/'] + input.skip(2)
            } else {
                h
            }),
            None => Err("could not resolve home directory"@),
        }
    } else {
        Ok(input)
    }
}

/// Expands a leading `~` against the home folder.
pub fn expand_home_path(input: &str, home: Option<String>) -> (r: Result<String, String>)
    ensures
        match r {
            Ok(p) => expanded_path(input@, match home {
                Some(h) => Some(h@),
                None => None,
            }) == Ok::<Seq<char>, Seq<char>>(p@),
            Err(m) => expanded_path(input@, match home {
                Some(h) => Some(h@),
                None => None,
            }) == Err::<Seq<char>, Seq<char>>(m@),
        },
{
    let v = crate::text::chars_of(input);
    let tilde_only = v.len() == 1 && v[0] == '~';
    let tilde_slash = v.len() >= 2 && v[0] == '~' && v[1] == '/';
    proof {
        if v@.len() == 1 && v@[0] == '~' {
            assert(v@ =~= seq!['~']);
        }
        if v@ == seq!['~'] {
            assert(v@.len() == 1);
        }
    }
    if !tilde_only && !tilde_slash {
        return Ok(crate::text::owned(input));
    }
    match home {
        None => Err(crate::text::owned("could not resolve home directory")),
        Some(h) => {
            if tilde_only {
                Ok(h)
            } else {
                let ghost hv = h@;
                let mut s = h;
                crate::text::push_char(&mut s, '/');
                let mut i: usize = 2;
                let ghost base = s@;
                while i < v.len()
                    invariant
                        2 <= i <= v@.len(),
                        s@ == base + v@.subrange(2, i as int),
                    decreases v.len() - i,
                {
                    crate::text::push_char(&mut s, v[i]);
                    proof {
                        assert(v@.subrange(2, i + 1) =~= v@.subrange(2, i as int).push(v@[i as int]));
                    }
                    i += 1;
                }
                proof {
                    assert(v@.subrange(2, v@.len() as int) =~= v@.skip(2));
                    assert(s@ =~= hv + seq!['/'] + v@.skip(2));
                }
                Ok(s)
            }
        },
    }
}

} // verus!
