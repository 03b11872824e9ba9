//! Character-level text utilities for parsing command output: trimming,
//! splitting on line separators, and small per-character rewrites.

use vstd::prelude::*;
use vstd::string::*;

verus! {

/// Whitespace, as `str::trim` removes it from the ends of parsed values:
/// the characters with the Unicode `White_Space` property.
pub open spec fn is_space(c: char) -> bool {
    ||| c == ' '
    ||| ('\u{09}' <= c && c <= '\u{0D}')
    ||| c == '\u{85}'
    ||| c == '\u{A0}'
    ||| c == '\u{1680}'
    ||| ('\u{2000}' <= c && c <= '\u{200A}')
    ||| c == '\u{2028}'
    ||| c == '\u{2029}'
    ||| c == '\u{202F}'
    ||| c == '\u{205F}'
    ||| c == '\u{3000}'
}

/// `s` with leading whitespace removed.
pub open spec fn trim_start(s: Seq<char>) -> Seq<char>
    decreases s.len(),
{
    if s.len() > 0 && is_space(s[0]) {
        trim_start(s.drop_first())
    } else {
        s
    }
}

/// `s` with trailing whitespace removed.
pub open spec fn trim_end(s: Seq<char>) -> Seq<char>
    decreases s.len(),
{
    if s.len() > 0 && is_space(s.last()) {
        trim_end(s.drop_last())
    } else {
        s
    }
}

/// `s` with whitespace removed from both ends.
pub open spec fn trimmed(s: Seq<char>) -> Seq<char> {
    trim_end(trim_start(s))
}

/// `s` with each underscore replaced by a space.
pub open spec fn underscores_to_spaces(s: Seq<char>) -> Seq<char> {
    s.map_values(|c: char| if c == '_' { ' ' } else { c })
}

/// The pieces of `s` between occurrences of `sep`, as `str::split` cuts
/// them: always at least one piece, and one more piece per occurrence.
pub open spec fn split_char(s: Seq<char>, sep: char) -> Seq<Seq<char>>
    decreases s.len(),
{
    if s.len() == 0 {
        seq![Seq::<char>::empty()]
    } else {
        let prev = split_char(s.drop_last(), sep);
        if s.last() == sep {
            prev.push(Seq::<char>::empty())
        } else {
            prev.update(prev.len() - 1, prev.last().push(s.last()))
        }
    }
}

/// The pieces of `s` between occurrences of the two-character separator
/// `\r\n`, as `str::split` cuts them.
pub open spec fn split_crlf(s: Seq<char>) -> Seq<Seq<char>>
    decreases s.len(),
{
    if s.len() == 0 {
        seq![Seq::<char>::empty()]
    } else if s.len() >= 2 && s[s.len() - 2] == '\r' && s.last() == '\n' {
        split_crlf(s.take(s.len() - 2)).push(Seq::<char>::empty())
    } else {
        let prev = split_crlf(s.drop_last());
        prev.update(prev.len() - 1, prev.last().push(s.last()))
    }
}

/// The text after the last `:` of `s`; the whole of `s` where it has none.
pub open spec fn after_last_colon(s: Seq<char>) -> Seq<char>
    decreases s.len(),
{
    if s.len() == 0 {
        Seq::<char>::empty()
    } else if s.last() == ':' {
        Seq::<char>::empty()
    } else {
        after_last_colon(s.drop_last()).push(s.last())
    }
}

proof fn lemma_split_char_nonempty(s: Seq<char>, sep: char)
    ensures
        split_char(s, sep).len() >= 1,
    decreases s.len(),
{
    if s.len() > 0 {
        lemma_split_char_nonempty(s.drop_last(), sep);
    }
}

proof fn lemma_split_crlf_nonempty(s: Seq<char>)
    ensures
        split_crlf(s).len() >= 1,
    decreases s.len(),
{
    if s.len() == 0 {
    } else if s.len() >= 2 && s[s.len() - 2] == '\r' && s.last() == '\n' {
        lemma_split_crlf_nonempty(s.take(s.len() - 2));
    } else {
        lemma_split_crlf_nonempty(s.drop_last());
    }
}

proof fn lemma_trim_start_at(s: Seq<char>, k: int)
    requires
        0 <= k <= s.len(),
        forall|i: int| 0 <= i < k ==> is_space(s[i]),
        k < s.len() ==> !is_space(s[k]),
    ensures
        trim_start(s) == s.subrange(k, s.len() as int),
    decreases k,
{
    if k == 0 {
        assert(s.subrange(0, s.len() as int) =~= s);
    } else {
        assert(is_space(s[0]));
        lemma_trim_start_at(s.drop_first(), k - 1);
        assert(s.drop_first().subrange(k - 1, s.drop_first().len() as int) =~= s.subrange(
            k,
            s.len() as int,
        ));
    }
}

proof fn lemma_trim_end_at(s: Seq<char>, m: int)
    requires
        0 <= m <= s.len(),
        forall|i: int| m <= i < s.len() ==> is_space(s[i]),
        m > 0 ==> !is_space(s[m - 1]),
    ensures
        trim_end(s) == s.subrange(0, m),
    decreases s.len() - m,
{
    if m == s.len() {
        assert(s.subrange(0, m) =~= s);
    } else {
        assert(is_space(s.last()));
        lemma_trim_end_at(s.drop_last(), m);
        assert(s.drop_last().subrange(0, m) =~= s.subrange(0, m));
    }
}

fn is_space_char(c: char) -> (b: bool)
    ensures
        b == is_space(c),
{
    c == ' ' || ('\u{09}' <= c && c <= '\u{0D}') || c == '\u{85}' || c == '\u{A0}' || c
        == '\u{1680}' || ('\u{2000}' <= c && c <= '\u{200A}') || c == '\u{2028}' || c == '\u{2029}'
        || c == '\u{202F}' || c == '\u{205F}' || c == '\u{3000}'
}

/// Executable counterpart of [`trimmed`].
pub fn trim_str(s: &str) -> (r: String)
    ensures
        r@ == trimmed(s@),
{
    let n: usize = s.unicode_len();
    let mut lo: usize = 0;
    while lo < n && is_space_char(s.get_char(lo))
        invariant
            n == s@.len(),
            lo <= n,
            forall|i: int| 0 <= i < lo ==> is_space(s@[i]),
        decreases n - lo,
    {
        lo = lo + 1;
    }
    let mut hi: usize = n;
    while hi > lo && is_space_char(s.get_char(hi - 1))
        invariant
            n == s@.len(),
            lo <= hi <= n,
            forall|i: int| hi <= i < n ==> is_space(s@[i]),
        decreases hi,
    {
        hi = hi - 1;
    }
    proof {
        lemma_trim_start_at(s@, lo as int);
        let t = s@.subrange(lo as int, n as int);
        lemma_trim_end_at(t, hi as int - lo as int);
        assert(t.subrange(0, hi as int - lo as int) =~= s@.subrange(lo as int, hi as int));
    }
    let piece = s.substring_char(lo, hi);
    String::from_str(piece)
}

/// Executable counterpart of [`underscores_to_spaces`].
pub fn replace_underscores(s: &str) -> (r: String)
    ensures
        r@ == underscores_to_spaces(s@),
{
    let n: usize = s.unicode_len();
    let mut r = String::new();
    let mut i: usize = 0;
    while i < n
        invariant
            n == s@.len(),
            i <= n,
            r@ =~= underscores_to_spaces(s@).take(i as int),
        decreases n - i,
    {
        let c = s.get_char(i);
        if c == '_' {
            r.append(" ");
            proof {
                reveal_strlit(" ");
            }
        } else {
            let piece = s.substring_char(i, i + 1);
            r.append(piece);
        }
        i = i + 1;
        proof {
            assert(underscores_to_spaces(s@).take(i as int) =~= underscores_to_spaces(
                s@,
            ).take(i as int - 1).push(if s@[i - 1] == '_' {
                ' '
            } else {
                s@[i - 1]
            }));
        }
    }
    proof {
        assert(underscores_to_spaces(s@).take(n as int) =~= underscores_to_spaces(s@));
    }
    r
}

/// Executable counterpart of [`after_last_colon`].
pub fn after_last_colon_str(s: &str) -> (r: String)
    ensures
        r@ == after_last_colon(s@),
{
    let n: usize = s.unicode_len();
    let mut cut: usize = 0;
    let mut i: usize = 0;
    while i < n
        invariant
            n == s@.len(),
            cut <= i <= n,
            after_last_colon(s@.take(i as int)) =~= s@.subrange(cut as int, i as int),
        decreases n - i,
    {
        let c = s.get_char(i);
        if c == ':' {
            cut = i + 1;
        }
        i = i + 1;
        proof {
            let t = s@.take(i as int);
            assert(t.drop_last() =~= s@.take(i as int - 1));
            assert(t.last() == s@[i - 1]);
            if s@[i - 1] != ':' {
                assert(after_last_colon(t) =~= s@.subrange(cut as int, i as int));
            }
        }
    }
    proof {
        assert(s@.take(n as int) =~= s@);
    }
    let piece = s.substring_char(cut, n);
    String::from_str(piece)
}

/// Executable counterpart of [`split_char`]: the pieces of `s` between
/// occurrences of `sep`.
pub fn split_char_str(s: &str, sep: char) -> (r: Vec<String>)
    ensures
        r.deep_view() == split_char(s@, sep),
{
    let n: usize = s.unicode_len();
    let mut r: Vec<String> = Vec::new();
    let mut start: usize = 0;
    let mut i: usize = 0;
    proof {
        assert(s@.subrange(0, 0) =~= Seq::<char>::empty());
        assert(s@.take(0) =~= Seq::<char>::empty());
        assert(r.deep_view() =~= Seq::<Seq<char>>::empty());
    }
    while i < n
        invariant
            n == s@.len(),
            start <= i <= n,
            r.deep_view().push(s@.subrange(start as int, i as int)) =~= split_char(
                s@.take(i as int),
                sep,
            ),
        decreases n - i,
    {
        let c = s.get_char(i);
        if c == sep {
            let piece = s.substring_char(start, i);
            r.push(String::from_str(piece));
            start = i + 1;
        }
        i = i + 1;
        proof {
            let t = s@.take(i as int);
            assert(t.drop_last() =~= s@.take(i as int - 1));
            assert(t.last() == s@[i - 1]);
            lemma_split_char_nonempty(t.drop_last(), sep);
            if s@[i - 1] == sep {
                assert(s@.subrange(start as int, i as int) =~= Seq::<char>::empty());
            } else {
                assert(s@.subrange(start as int, i as int) =~= s@.subrange(
                    start as int,
                    i as int - 1,
                ).push(s@[i - 1]));
            }
        }
    }
    proof {
        assert(s@.take(n as int) =~= s@);
    }
    let piece = s.substring_char(start, n);
    r.push(String::from_str(piece));
    let ghost final_view = r.deep_view();
    proof {
        assert(final_view =~= split_char(s@, sep));
    }
    r
}

/// Executable counterpart of [`split_crlf`]: the pieces of `s` between
/// occurrences of `\r\n`.
pub fn split_crlf_str(s: &str) -> (r: Vec<String>)
    ensures
        r.deep_view() == split_crlf(s@),
{
    let n: usize = s.unicode_len();
    let mut r: Vec<String> = Vec::new();
    let mut start: usize = 0;
    let mut i: usize = 0;
    proof {
        assert(s@.subrange(0, 0) =~= Seq::<char>::empty());
        assert(s@.take(0) =~= Seq::<char>::empty());
        assert(r.deep_view() =~= Seq::<Seq<char>>::empty());
    }
    while i < n
        invariant
            n == s@.len(),
            start <= i <= n,
            start == 0 || s@[start as int - 1] == '\n',
            forall|j: int|
                start <= j < i ==> !(#[trigger] s@[j] == '\r' && j + 1 < n && s@[j + 1] == '\n'),
            r.deep_view().push(s@.subrange(start as int, i as int)) =~= split_crlf(
                s@.take(i as int),
            ),
        decreases n - i,
    {
        let c = s.get_char(i);
        if c == '\r' && i + 1 < n && s.get_char(i + 1) == '\n' {
            let piece = s.substring_char(start, i);
            r.push(String::from_str(piece));
            proof {
                let t = s@.take(i as int + 2);
                assert(t.len() >= 2);
                assert(t[t.len() - 2] == s@[i as int]);
                assert(t.last() == s@[i as int + 1]);
                assert(t.take(t.len() - 2) =~= s@.take(i as int));
                assert(s@.subrange(i as int + 2, i as int + 2) =~= Seq::<char>::empty());
            }
            start = i + 2;
            i = i + 2;
        } else {
            i = i + 1;
            proof {
                let t = s@.take(i as int);
                assert(t.drop_last() =~= s@.take(i as int - 1));
                assert(t.last() == s@[i - 1]);
                // the last two characters of `t` are not a separator: either
                // the last is not `\n`, or the one before it is inside the
                // current piece or is the `\n` that closed the previous one
                if t.len() >= 2 && t.last() == '\n' {
                    assert(t[t.len() - 2] == s@[i - 2]);
                    if i - 2 >= start {
                        assert(!(s@[i as int - 2] == '\r' && i - 1 < n && s@[i as int - 1]
                            == '\n'));
                        assert(s@[i - 2] != '\r');
                    } else {
                        assert(start == i - 1 && start > 0);
                        assert(s@[i - 2] == '\n');
                    }
                }
                lemma_split_crlf_nonempty(t.drop_last());
                assert(s@.subrange(start as int, i as int) =~= s@.subrange(
                    start as int,
                    i as int - 1,
                ).push(s@[i - 1]));
            }
        }
    }
    proof {
        assert(s@.take(n as int) =~= s@);
    }
    let piece = s.substring_char(start, n);
    r.push(String::from_str(piece));
    let ghost final_view = r.deep_view();
    proof {
        assert(final_view =~= split_crlf(s@));
    }
    r
}

} // verus!
