//! A remote git repository and the local directory that mirrors it.
use vstd::prelude::*;
use crate::text::chars_of;

verus! {

/// The part of `t[0..hi]` after its last `/`, as indices: where it starts.
pub open spec fn segment_start(t: Seq<char>, hi: int) -> int
    decreases hi,
{
    if hi <= 0 {
        0
    } else if t[hi - 1] == '/' {
        hi
    } else {
        segment_start(t, hi - 1)
    }
}

/// `t[i..hi]` with every `.git` removed, scanning from the left.
pub open spec fn without_git(t: Seq<char>, i: int, hi: int) -> Seq<char>
    decreases hi - i,
{
    if i >= hi {
        Seq::empty()
    } else if i + 4 <= hi && t.subrange(i, i + 4) == ".git"@ {
        without_git(t, i + 4, hi)
    } else {
        seq![t[i]] + without_git(t, i + 1, hi)
    }
}

/// The repository name of a URL: its last `/`-separated segment, with
/// every `.git` removed.
pub open spec fn repo_name_of(url: Seq<char>) -> Seq<char> {
    without_git(url, segment_start(url, url.len() as int), url.len() as int)
}

pub struct GitRepo {
    pub url: String,
    /// The local directory that holds the clone.
    pub path: String,
}

impl GitRepo {
    pub fn new(url: String, path: String) -> (r: GitRepo)
        ensures
            r.url == url,
            r.path == path,
    {
        GitRepo { url, path }
    }

    /// The name of the repository, taken from its URL.
    pub fn repo_name(&self) -> (r: String)
        ensures
            r@ == repo_name_of(self.url@),
    {
        let s = self.url.as_str();
        let t = chars_of(s);
        let n = t.len();
        let mut start = n;
        while start > 0 && t[start - 1] != '/'
            invariant
                start <= n == t@.len(),
                segment_start(t@, n as int) == segment_start(t@, start as int),
            decreases start,
        {
            start = start - 1;
        }
        proof {
            reveal_strlit(".git");
        }
        let mut r = String::new();
        let mut i = start;
        assert(r@ + without_git(t@, i as int, n as int) == without_git(t@, start as int, n as int));
        while i < n
            invariant
                start <= i <= n == t@.len(),
                t@ == s@,
                r@ + without_git(t@, i as int, n as int) == without_git(t@, start as int, n as int),
            decreases n - i,
        {
            proof {
                reveal_strlit(".git");
            }
            if n - i >= 4 && t[i] == '.' && t[i + 1] == 'g' && t[i + 2] == 'i' && t[i + 3] == 't' {
                assert(t@.subrange(i as int, i + 4) =~= ".git"@);
                i = i + 4;
            } else {
                proof {
                    if i + 4 <= n {
                        assert(t@.subrange(i as int, i + 4) != ".git"@) by {
                            if t@.subrange(i as int, i + 4) == ".git"@ {
                                assert(t@.subrange(i as int, i + 4)[0] == '.');
                                assert(t@.subrange(i as int, i + 4)[1] == 'g');
                                assert(t@.subrange(i as int, i + 4)[2] == 'i');
                                assert(t@.subrange(i as int, i + 4)[3] == 't');
                            }
                        }
                    }
                }
                let ghost before = r@;
                r.append(s.substring_char(i, i + 1));
                assert(r@ =~= before + seq![t@[i as int]]);
                assert(r@ + without_git(t@, i + 1, n as int) =~= before + without_git(t@, i as int, n as int));
                i = i + 1;
            }
        }
        assert(r@ =~= r@ + without_git(t@, n as int, n as int));
        r
    }
}

} // verus!
