//! The short-link redirector: an immutable table from short codes to
//! absolute destination URLs, built once at startup, and an exact,
//! case-sensitive lookup with no trimming or normalization.

use vstd::prelude::*;
use vstd::map::*;
use vstd::string::StringExecFns;

verus! {

/// The immutable mapping from short codes to destination URLs.
pub struct RedirectTable {
    entries: Vec<(String, String)>,
}

/// A destination the table may hold: an absolute URL, recognized here by
/// its scheme.
pub open spec fn has_url_scheme(u: Seq<char>) -> bool {
    "https://"@.is_prefix_of(u) || "http://"@.is_prefix_of(u)
}

/// The mapping a list of entries stands for. A later entry would shadow an
/// earlier one with the same code; a well-formed table has each code once.
pub open spec fn map_of(s: Seq<(String, String)>) -> Map<Seq<char>, Seq<char>>
    decreases s.len(),
{
    if s.len() == 0 {
        Map::empty()
    } else {
        map_of(s.drop_last()).insert(s.last().0@, s.last().1@)
    }
}

impl View for RedirectTable {
    type V = Map<Seq<char>, Seq<char>>;

    closed spec fn view(&self) -> Map<Seq<char>, Seq<char>> {
        map_of(self.entries@)
    }
}

proof fn lemma_map_of_keys(s: Seq<(String, String)>, k: Seq<char>)
    ensures
        map_of(s).contains_key(k) <==> exists|i: int| 0 <= i < s.len() && s[i].0@ == k,
    decreases s.len(),
{
    if s.len() > 0 {
        lemma_map_of_keys(s.drop_last(), k);
        if map_of(s).contains_key(k) && s.last().0@ != k {
            let i = choose|i: int| 0 <= i < s.drop_last().len() && s.drop_last()[i].0@ == k;
            assert(s[i].0@ == k);
        }
        if exists|i: int| 0 <= i < s.len() && s[i].0@ == k {
            let i = choose|i: int| 0 <= i < s.len() && s[i].0@ == k;
            if i < s.len() - 1 {
                assert(s.drop_last()[i].0@ == k);
            }
        }
    }
}

proof fn lemma_map_of_value(s: Seq<(String, String)>, i: int)
    requires
        0 <= i < s.len(),
        forall|a: int, b: int| 0 <= a < b < s.len() ==> s[a].0@ != s[b].0@,
    ensures
        map_of(s).contains_key(s[i].0@),
        map_of(s)[s[i].0@] == s[i].1@,
    decreases s.len(),
{
    if i == s.len() - 1 {
    } else {
        assert(s.drop_last()[i] == s[i]);
        lemma_map_of_value(s.drop_last(), i);
        assert(s[i].0@ != s.last().0@);
    }
}

impl RedirectTable {
    /// Every code appears at most once, and every destination is an
    /// absolute URL.
    pub closed spec fn wf(&self) -> bool {
        &&& forall|a: int, b: int|
            0 <= a < b < self.entries@.len() ==> self.entries@[a].0@ != self.entries@[b].0@
        &&& forall|a: int|
            0 <= a < self.entries@.len() ==> has_url_scheme(#[trigger] self.entries@[a].1@)
    }

    /// The fixed table this service ships with: its one short code.
    pub fn new() -> (r: RedirectTable)
        ensures
            r.wf(),
            r@ == map!["B5Z"@ => "https://codecraft.engineering"@],
    {
        let mut entries: Vec<(String, String)> = Vec::new();
        entries.push(
            (String::from_str("B5Z"), String::from_str("https://codecraft.engineering")),
        );
        let r = RedirectTable { entries };
        proof {
            assert(r.entries@.drop_last() =~= Seq::<(String, String)>::empty());
            assert(map_of(r.entries@.drop_last()) == Map::<Seq<char>, Seq<char>>::empty());
            assert(r@ =~= map!["B5Z"@ => "https://codecraft.engineering"@]);
            reveal_strlit("https://codecraft.engineering");
            reveal_strlit("https://");
            assert("https://"@.is_prefix_of(r.entries@[0].1@)) by {
                assert(r.entries@[0].1@.subrange(0, 8) =~= "https://"@);
            }
        }
        r
    }

    /// The destination a code maps to, exactly and case-sensitively;
    /// `None` if and only if the table does not hold the code.
    pub fn lookup(&self, code: &String) -> (r: Option<&String>)
        requires
            self.wf(),
        ensures
            match r {
                Some(url) => self@.contains_key(code@) && url@ == self@[code@]
                    && has_url_scheme(url@),
                None => !self@.contains_key(code@),
            },
    {
        let n = self.entries.len();
        let mut i: usize = 0;
        while i < n
            invariant
                i <= n,
                n == self.entries@.len(),
                self.wf(),
                forall|j: int| 0 <= j < i ==> self.entries@[j].0@ != code@,
            decreases n - i,
        {
            let entry = &self.entries[i];
            if entry.0 == *code {
                proof {
                    lemma_map_of_value(self.entries@, i as int);
                }
                return Some(&entry.1);
            }
            i = i + 1;
        }
        proof {
            lemma_map_of_keys(self.entries@, code@);
        }
        None
    }

    /// Resolve a code to its redirect, or to `UnknownCode` — surfaced by
    /// the boundary as an HTTP 404 — when the table does not hold it.
    pub fn resolve(&self, code: &String) -> (r: RedirectOutcome)
        requires
            self.wf(),
        ensures
            match r {
                RedirectOutcome::Redirect(url) => self@.contains_key(code@) && url@
                    == self@[code@] && has_url_scheme(url@),
                RedirectOutcome::UnknownCode => !self@.contains_key(code@),
            },
    {
        match self.lookup(code) {
            Some(url) => RedirectOutcome::Redirect(url.clone()),
            None => RedirectOutcome::UnknownCode,
        }
    }
}

/// What the redirect resolver decides for a code.
pub enum RedirectOutcome {
    /// Send a temporary redirect to this destination URL.
    Redirect(String),
    /// The code is not in the table; answer 404 with an explicit body.
    UnknownCode,
}

impl RedirectOutcome {
    /// The HTTP status the outcome surfaces as: a temporary redirect for a
    /// known code, a plain miss for an unknown one.
    pub fn status(&self) -> (r: u16)
        ensures
            *self matches RedirectOutcome::Redirect(_) ==> r == 307,
            *self matches RedirectOutcome::UnknownCode ==> r == 404,
    {
        match self {
            RedirectOutcome::Redirect(_) => 307,
            RedirectOutcome::UnknownCode => 404,
        }
    }

    /// The body an unknown code is answered with.
    pub fn message(&self) -> (r: String)
        ensures
            r@ == "URL shortcode not found"@,
    {
        String::from_str("URL shortcode not found")
    }
}

} // verus!
