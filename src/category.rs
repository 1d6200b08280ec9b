use vstd::prelude::*;

use crate::text::{is_space, is_space_char};

verus! {

/// What `char::to_uppercase` yields for a character, collected.
pub uninterp spec fn upper_of(c: char) -> Seq<char>;

/// Relies on char::to_uppercase: the upper-case mapping of one character,
/// which depends on the character alone.
#[verifier::external_body]
fn upper(c: char) -> (r: String)
    ensures
        r@ == upper_of(c),
{
    c.to_uppercase().collect::<String>()
}

/// A character that separates words of a file name: white space, `-` or `_`.
pub open spec fn is_separator(c: char) -> bool {
    is_space(c) || c == '-' || c == '_'
}

/// The words of `s` that follow the word in progress `cur`.
pub open spec fn words_from(s: Seq<char>, cur: Seq<char>) -> Seq<Seq<char>>
    decreases s.len(),
{
    if s.len() == 0 {
        if cur.len() == 0 {
            Seq::empty()
        } else {
            seq![cur]
        }
    } else if is_separator(s[0]) {
        if cur.len() == 0 {
            words_from(s.drop_first(), Seq::empty())
        } else {
            seq![cur] + words_from(s.drop_first(), Seq::empty())
        }
    } else {
        words_from(s.drop_first(), cur.push(s[0]))
    }
}

/// The maximal runs of non-separator characters of `s`, in order.
pub open spec fn words(s: Seq<char>) -> Seq<Seq<char>> {
    words_from(s, Seq::empty())
}

/// A word with its first character in upper case.
pub open spec fn capitalized(w: Seq<char>) -> Seq<char> {
    if w.len() == 0 {
        w
    } else {
        upper_of(w[0]) + w.drop_first()
    }
}

/// The capitalized words joined by single spaces.
pub open spec fn title_case(ws: Seq<Seq<char>>) -> Seq<char>
    decreases ws.len(),
{
    if ws.len() == 0 {
        Seq::empty()
    } else if ws.len() == 1 {
        capitalized(ws[0])
    } else {
        title_case(ws.drop_last()).push(' ') + capitalized(ws.last())
    }
}

/// The category label of a file name stem: its words, split at white space,
/// `-` and `_`, each capitalized, joined by single spaces.
pub open spec fn category_of(stem: Seq<char>) -> Seq<char> {
    title_case(words(stem))
}

fn words_vec(s: &str) -> (r: Vec<String>)
    ensures
        r@.map_values(|w: String| w@) == words(s@),
        forall|k: int| 0 <= k < r@.len() ==> (#[trigger] r@[k])@.len() > 0,
{
    let n = s.unicode_len();
    let mut out: Vec<String> = Vec::new();
    let mut cur = String::new();
    let mut i: usize = 0;
    assert(s@.subrange(0, n as int) =~= s@);
    assert(out@.map_values(|w: String| w@) + words(s@) =~= words(s@));
    while i < n
        invariant
            n == s@.len(),
            0 <= i <= n,
            words(s@) == out@.map_values(|w: String| w@) + words_from(
                s@.subrange(i as int, n as int),
                cur@,
            ),
            forall|k: int| 0 <= k < out@.len() ==> (#[trigger] out@[k])@.len() > 0,
        decreases n - i,
    {
        let c = s.get_char(i);
        let ghost rest = s@.subrange(i as int, n as int);
        let ghost old_out = out@.map_values(|w: String| w@);
        let ghost old_cur = cur@;
        assert(rest[0] == c);
        assert(rest.drop_first() =~= s@.subrange(i + 1, n as int));
        if is_space_char(c) || c == '-' || c == '_' {
            if !cur.as_str().is_empty() {
                let w = cur;
                out.push(w);
                cur = String::new();
                assert(out@.map_values(|w: String| w@) =~= old_out.push(w@));
                assert(old_out + (seq![w@] + words_from(rest.drop_first(), Seq::empty()))
                    =~= old_out.push(w@) + words_from(rest.drop_first(), Seq::empty()));
            } else {
                assert(old_cur =~= Seq::<char>::empty());
            }
            assert(cur@ =~= Seq::<char>::empty());
        } else {
            let ghost before = cur@;
            let mut piece = String::new();
            piece.append(s.substring_char(i, i + 1));
            cur.append(piece.as_str());
            assert(cur@ =~= before.push(c));
        }
        i = i + 1;
    }
    let ghost last_out = out@.map_values(|w: String| w@);
    assert(s@.subrange(n as int, n as int).len() == 0);
    if !cur.as_str().is_empty() {
        let w = cur;
        out.push(w);
        assert(out@.map_values(|w: String| w@) =~= last_out.push(w@));
        assert(last_out + seq![w@] =~= last_out.push(w@));
    } else {
        assert(last_out + Seq::<Seq<char>>::empty() =~= last_out);
    }
    out
}

fn capitalize(w: &str) -> (r: String)
    requires
        w@.len() > 0,
    ensures
        r@ == capitalized(w@),
{
    let n = w.unicode_len();
    let mut r = upper(w.get_char(0));
    r.append(w.substring_char(1, n));
    assert(w@.drop_first() =~= w@.subrange(1, n as int));
    r
}

/// The category label of a file name stem: "french-capitals_quiz" gives
/// "French Capitals Quiz".
pub fn category_name(stem: &str) -> (r: String)
    ensures
        r@ == category_of(stem@),
{
    let ws = words_vec(stem);
    let ghost wv = ws@.map_values(|w: String| w@);
    let mut out = String::new();
    let mut k: usize = 0;
    while k < ws.len()
        invariant
            0 <= k <= ws@.len(),
            wv == ws@.map_values(|w: String| w@),
            out@ == title_case(wv.take(k as int)),
            forall|j: int| 0 <= j < ws@.len() ==> (#[trigger] ws@[j])@.len() > 0,
        decreases ws@.len() - k,
    {
        let ghost before = out@;
        assert(wv.take(k + 1).drop_last() =~= wv.take(k as int));
        assert(wv.take(k + 1).last() == ws@[k as int]@);
        if k > 0 {
            proof {
                reveal_strlit(" ");
            }
            out.append(" ");
        }
        let c = capitalize(ws[k].as_str());
        out.append(c.as_str());
        assert(k == 0 ==> before =~= Seq::<char>::empty());
        assert(out@ =~= title_case(wv.take(k + 1)));
        k = k + 1;
    }
    assert(wv.take(k as int) =~= wv);
    out
}

} // verus!
