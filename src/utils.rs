use vstd::prelude::*;

verus! {

/// A path that starts in the home directory: `~`, or `~/` and more.
pub open spec fn is_home_relative(p: Seq<char>) -> bool {
    p == seq!['~'] || (p.len() >= 2 && p[0] == '~' && p[1] == '/')
}

/// `s` without its leading slashes.
pub open spec fn strip_slashes(s: Seq<char>) -> Seq<char>
    decreases s.len(),
{
    if s.len() > 0 && s[0] == '/' {
        strip_slashes(s.drop_first())
    } else {
        s
    }
}

/// `base` and `rest` joined by one slash; none is added after an empty base
/// or one that already ends in a slash.
pub open spec fn join_path(base: Seq<char>, rest: Seq<char>) -> Seq<char> {
    if base.len() > 0 && base.last() != '/' {
        base.push('/') + rest
    } else {
        base + rest
    }
}

/// The path with a leading `~` replaced by the home directory, when one is known.
pub open spec fn expanded(p: Seq<char>, home: Option<Seq<char>>) -> Seq<char> {
    if is_home_relative(p) && home is Some {
        join_path(home->0, strip_slashes(p.drop_first()))
    } else {
        p
    }
}

proof fn lemma_strip_slashes_from(s: Seq<char>, i: int)
    requires
        0 <= i <= s.len(),
        forall|k: int| 0 <= k < i ==> #[trigger] s[k] == '/',
        i == s.len() || s[i] != '/',
    ensures
        strip_slashes(s) == s.subrange(i, s.len() as int),
    decreases i,
{
    if i == 0 {
        assert(s.subrange(0, s.len() as int) =~= s);
    } else {
        assert(s[0] == '/');
        let t = s.drop_first();
        assert forall|k: int| 0 <= k < i - 1 implies #[trigger] t[k] == '/' by {
            assert(t[k] == s[k + 1]);
        }
        lemma_strip_slashes_from(t, i - 1);
        assert(t.subrange(i - 1, t.len() as int) =~= s.subrange(i, s.len() as int));
    }
}

/// Replaces a leading `~` of `path` by `home`, the home directory when the
/// caller knows it: `~/notes` with home `/home/ann` gives `/home/ann/notes`.
/// Slashes that follow the `~` are merged into one. Any other path is
/// returned as it is.
pub fn expand_tilde(path: &str, home: Option<&str>) -> (r: String)
    ensures
        r@ == expanded(
            path@,
            match home {
                Some(h) => Some(h@),
                None => None,
            },
        ),
{
    let n = path.unicode_len();
    let relative = (n == 1 && path.get_char(0) == '~') || (n >= 2 && path.get_char(0) == '~'
        && path.get_char(1) == '/');
    assert(relative == is_home_relative(path@)) by {
        if n == 1 && path@[0] == '~' {
            assert(path@ =~= seq!['~']);
        }
    }
    match home {
        Some(h) if relative => {
            let mut i: usize = 1;
            while i < n && path.get_char(i) == '/'
                invariant
                    1 <= i <= n,
                    n == path@.len(),
                    forall|k: int| 1 <= k < i ==> #[trigger] path@[k] == '/',
                decreases n - i,
            {
                i = i + 1;
            }
            let ghost t = path@.drop_first();
            assert forall|k: int| 0 <= k < i - 1 implies #[trigger] t[k] == '/' by {
                assert(t[k] == path@[k + 1]);
            }
            proof {
                lemma_strip_slashes_from(t, i - 1);
            }
            assert(t.subrange(i - 1, t.len() as int) =~= path@.subrange(i as int, n as int));
            let mut r = String::from_str(h);
            let m = h.unicode_len();
            if m > 0 && h.get_char(m - 1) != '/' {
                proof {
                    reveal_strlit("/");
                }
                r.append("/");
            }
            r.append(path.substring_char(i, n));
            assert(r@ =~= join_path(h@, strip_slashes(t)));
            r
        },
        _ => String::from_str(path),
    }
}

} // verus!
