//! Identity claims: who must have signed.
//!
//! A [`Subject`] is matched against a signer's OIDC subject string, either
//! exactly or as a URL prefix.  URL prefixes are sanitized at construction
//! time — never at match time — so that every consumer sees the safe,
//! `/`-terminated form and a prefix cannot match an unrelated path that
//! merely starts with the same characters.
use vstd::prelude::*;
use crate::policy::error::{SchemaError, SchemaErrorView};

verus! {

/// ASCII letter.
pub open spec fn is_alpha(c: char) -> bool {
    (97 <= c as u32 <= 122) || (65 <= c as u32 <= 90)
}

/// A character allowed in a URL scheme after the leading letter.
pub open spec fn is_scheme_char(c: char) -> bool {
    is_alpha(c) || (48 <= c as u32 <= 57) || c == '+' || c == '-' || c == '.'
}

/// `s` splits into a URL at `i`: a scheme of scheme characters starting with
/// a letter, then `://`, then at least one further character.
pub open spec fn url_split_at(s: Seq<char>, i: int) -> bool {
    &&& 1 <= i
    &&& i + 3 < s.len()
    &&& is_alpha(s[0])
    &&& (forall|j: int| 0 <= j < i ==> is_scheme_char(s[j]))
    &&& s[i] == ':'
    &&& s[i + 1] == '/'
    &&& s[i + 2] == '/'
}

/// A syntactically valid URL prefix: `scheme://` followed by something.
pub open spec fn valid_url_prefix(s: Seq<char>) -> bool {
    exists|i: int| url_split_at(s, i)
}

/// `s`, given a trailing `/` if it does not already end in one.
pub open spec fn with_trailing_slash(s: Seq<char>) -> Seq<char> {
    if s.len() > 0 && s[s.len() - 1] == '/' {
        s
    } else {
        s + seq!['/']
    }
}

/// Checks whether `is_alpha` holds, in executable code.
fn alpha(c: char) -> (r: bool)
    ensures
        r == is_alpha(c),
{
    let u = c as u32;
    (97 <= u && u <= 122) || (65 <= u && u <= 90)
}

/// Checks whether `is_scheme_char` holds, in executable code.
fn scheme_char(c: char) -> (r: bool)
    ensures
        r == is_scheme_char(c),
{
    let u = c as u32;
    alpha(c) || (48 <= u && u <= 57) || c == '+' || c == '-' || c == '.'
}

/// Decides [`valid_url_prefix`] for a string.
pub fn check_url_prefix(s: &str) -> (r: bool)
    ensures
        r == valid_url_prefix(s@),
{
    let n = s.unicode_len();
    let mut i: usize = 0;
    loop
        invariant
            0 <= i <= n,
            n == s@.len(),
            forall|j: int| 0 <= j < i ==> is_scheme_char(s@[j]) && s@[j] != ':',
        decreases n - i,
    {
        if i >= n {
            // no colon anywhere: no split position exists
            proof {
                assert forall|w: int| !url_split_at(s@, w) by {
                    if 1 <= w && w + 3 < s@.len() {
                        assert(s@[w] != ':');
                    }
                }
            }
            return false;
        }
        let c = s.get_char(i);
        if c == ':' {
            // the first colon is the only candidate split position
            proof {
                assert forall|w: int| w != i implies !url_split_at(s@, w) by {
                    if 1 <= w && w + 3 < s@.len() {
                        if w < i {
                            assert(s@[w] != ':');
                        } else {
                            assert(!is_scheme_char(s@[i as int]));
                        }
                    }
                }
            }
            if i >= 1 && n > 3 && i < n - 3 && alpha(s.get_char(0)) && s.get_char(i + 1) == '/'
                && s.get_char(i + 2) == '/' {
                proof {
                    assert(url_split_at(s@, i as int));
                }
                return true;
            } else {
                proof {
                    assert(!url_split_at(s@, i as int));
                }
                return false;
            }
        } else if !scheme_char(c) {
            // a character that can stand in no scheme, before any colon
            proof {
                assert forall|w: int| !url_split_at(s@, w) by {
                    if 1 <= w && w + 3 < s@.len() {
                        if w <= i {
                            assert(s@[w] != ':');
                        } else {
                            assert(!is_scheme_char(s@[i as int]));
                        }
                    }
                }
            }
            return false;
        }
        i = i + 1;
    }
}

/// Appends the trailing `/` where it is missing.
pub fn sanitize_url_prefix(s: &str) -> (r: String)
    ensures
        r@ == with_trailing_slash(s@),
{
    proof {
        reveal_strlit("/");
        assert("/"@ =~= seq!['/']);
    }
    let n = s.unicode_len();
    if n > 0 && s.get_char(n - 1) == '/' {
        String::from_str(s)
    } else {
        String::from_str(s).concat("/")
    }
}

/// Mathematical model of a [`Subject`].
pub enum SubjectView {
    Equal(Seq<char>),
    UrlPrefix(Seq<char>),
}

/// An identity claim matched against a signer's OIDC subject string: either
/// an exact string, or a sanitized URL prefix that the claim must start with.
#[derive(Debug, Clone, PartialEq)]
pub enum Subject {
    Equal(String),
    UrlPrefix(String),
}

impl View for Subject {
    type V = SubjectView;

    open spec fn view(&self) -> SubjectView {
        match self {
            Subject::Equal(s) => SubjectView::Equal(s@),
            Subject::UrlPrefix(p) => SubjectView::UrlPrefix(p@),
        }
    }
}

/// The invariant that construction establishes: a URL prefix is a valid URL
/// and ends with `/`.
pub open spec fn subject_wf(s: SubjectView) -> bool {
    match s {
        SubjectView::Equal(_) => true,
        SubjectView::UrlPrefix(p) => valid_url_prefix(p) && p.len() > 0 && p[p.len() - 1] == '/',
    }
}

/// Whether `claim` satisfies the subject: equal to it, or starting with the
/// sanitized prefix.
pub open spec fn subject_matches(s: SubjectView, claim: Seq<char>) -> bool {
    match s {
        SubjectView::Equal(v) => claim == v,
        SubjectView::UrlPrefix(p) => p.is_prefix_of(claim),
    }
}

/// Appending the trailing `/` keeps a URL prefix valid.
pub proof fn lemma_sanitize_keeps_validity(s: Seq<char>)
    requires
        valid_url_prefix(s),
    ensures
        valid_url_prefix(with_trailing_slash(s)),
        subject_wf(SubjectView::UrlPrefix(with_trailing_slash(s))),
{
    let i = choose|i: int| url_split_at(s, i);
    let t = with_trailing_slash(s);
    assert(url_split_at(t, i));
    assert(t[t.len() - 1] == '/');
}

/// Checks whether `prefix` is a prefix of `s`.
pub fn str_starts_with(s: &str, prefix: &str) -> (r: bool)
    ensures
        r == prefix@.is_prefix_of(s@),
{
    let n = s.unicode_len();
    let p = prefix.unicode_len();
    if p > n {
        return false;
    }
    for i in 0..p
        invariant
            p <= n,
            n == s@.len(),
            p == prefix@.len(),
            forall|j: int| 0 <= j < i ==> prefix@[j] == s@[j],
    {
        if s.get_char(i) != prefix.get_char(i) {
            assert(prefix@[i as int] != s@.subrange(0, p as int)[i as int]);
            return false;
        }
    }
    proof {
        assert(prefix@ =~= s@.subrange(0, p as int));
    }
    true
}

impl Subject {
    /// An exact-match subject.
    pub fn equal(value: String) -> (r: Subject)
        ensures
            r@ == SubjectView::Equal(value@),
            subject_wf(r@),
    {
        Subject::Equal(value)
    }

    /// A URL-prefix subject.  The URL is sanitized here, at construction
    /// time, to end with `/`; a syntactically invalid URL is rejected so that
    /// it can never reach evaluation.
    pub fn url_prefix(url: &str) -> (r: Result<Subject, SchemaError>)
        ensures
            valid_url_prefix(url@) ==> (r matches Ok(s) && s@ == SubjectView::UrlPrefix(
                with_trailing_slash(url@),
            ) && subject_wf(s@)),
            !valid_url_prefix(url@) ==> (r matches Err(e) && e@
                == SchemaErrorView::InvalidUrlPrefix(url@)),
    {
        if check_url_prefix(url) {
            proof {
                lemma_sanitize_keeps_validity(url@);
            }
            Ok(Subject::UrlPrefix(sanitize_url_prefix(url)))
        } else {
            Err(SchemaError::InvalidUrlPrefix(String::from_str(url)))
        }
    }

    /// Whether `claim` satisfies this subject.
    pub fn matches(&self, claim: &str) -> (r: bool)
        ensures
            r == subject_matches(self@, claim@),
    {
        match self {
            Subject::Equal(v) => crate::policy::value::str_eq(claim, v.as_str()),
            Subject::UrlPrefix(p) => str_starts_with(claim, p.as_str()),
        }
    }
}

} // verus!
