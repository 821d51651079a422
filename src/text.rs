use vstd::prelude::*;
use vstd::string::StrSliceExecFns;

verus! {

/// Whether `c` has the Unicode White_Space property.
pub open spec fn is_white_space(c: char) -> bool {
    ('\u{9}' <= c && c <= '\u{d}') || c == ' ' || c == '\u{85}' || c == '\u{a0}'
        || c == '\u{1680}' || ('\u{2000}' <= c && c <= '\u{200a}') || c == '\u{2028}'
        || c == '\u{2029}' || c == '\u{202f}' || c == '\u{205f}' || c == '\u{3000}'
}

pub fn white_space(c: char) -> (r: bool)
    ensures
        r == is_white_space(c),
{
    ('\u{9}' <= c && c <= '\u{d}') || c == ' ' || c == '\u{85}' || c == '\u{a0}'
        || c == '\u{1680}' || ('\u{2000}' <= c && c <= '\u{200a}') || c == '\u{2028}'
        || c == '\u{2029}' || c == '\u{202f}' || c == '\u{205f}' || c == '\u{3000}'
}

/// The tokens of `s`: its maximal runs of characters that are not white space,
/// in order.
pub open spec fn tokens(s: Seq<char>) -> Seq<Seq<char>>
    decreases s.len(),
{
    if s.len() == 0 {
        Seq::empty()
    } else {
        let before = tokens(s.drop_last());
        let c = s.last();
        if is_white_space(c) {
            before
        } else if s.len() >= 2 && !is_white_space(s[s.len() - 2]) {
            before.update(before.len() - 1, before.last().push(c))
        } else {
            before.push(seq![c])
        }
    }
}

/// The text at character offset `i` of `t`: that one character, or nothing
/// where `t` is shorter.
pub open spec fn char_at(t: Seq<char>, i: int) -> Seq<char> {
    if 0 <= i < t.len() {
        seq![t[i]]
    } else {
        Seq::empty()
    }
}

/// Splits `s` into its tokens.
pub fn split_tokens(s: &String) -> (r: Vec<String>)
    ensures
        r@.map_values(|t: String| t@) == tokens(s@),
{
    let text = s.as_str();
    let n = text.unicode_len();
    let mut toks: Vec<String> = Vec::new();
    let mut in_token = false;
    let mut start: usize = 0;
    let mut i: usize = 0;
    while i < n
        invariant
            n == s@.len(),
            text@ == s@,
            i <= n,
            start <= i,
            !in_token ==> toks@.map_values(|t: String| t@) == tokens(s@.take(i as int)),
            !in_token ==> (i == 0 || is_white_space(s@[i - 1])),
            in_token ==> start < i && !is_white_space(s@[i - 1])
                && toks@.map_values(|t: String| t@).push(s@.subrange(start as int, i as int))
                    == tokens(s@.take(i as int)),
        decreases n - i,
    {
        let c = text.get_char(i);
        let ghost pre = s@.take(i as int);
        let ghost cur = s@.take(i as int + 1);
        assert(cur.drop_last() =~= pre);
        assert(cur.last() == c);
        if i >= 1 {
            assert(cur[cur.len() - 2] == s@[i - 1]);
        }
        if white_space(c) {
            if in_token {
                let t = String::from_str(text.substring_char(start, i));
                toks.push(t);
                in_token = false;
            }
        } else {
            if !in_token {
                in_token = true;
                start = i;
                proof {
                    let prev = toks@.map_values(|t: String| t@);
                    assert(s@.subrange(i as int, i as int + 1) =~= seq![c]);
                    assert(prev.push(s@.subrange(start as int, i as int + 1)) =~= tokens(cur));
                }
            } else {
                proof {
                    let prev = toks@.map_values(|t: String| t@);
                    let before = tokens(pre);
                    assert(before == prev.push(s@.subrange(start as int, i as int)));
                    assert(s@.subrange(start as int, i as int + 1)
                        =~= s@.subrange(start as int, i as int).push(c));
                    assert(tokens(cur) == before.update(before.len() - 1, before.last().push(c)));
                    assert(prev.push(s@.subrange(start as int, i as int + 1)) =~= tokens(cur));
                }
            }
        }
        i = i + 1;
    }
    if in_token {
        let t = String::from_str(text.substring_char(start, n));
        toks.push(t);
    }
    assert(s@.take(n as int) =~= s@);
    assert(toks@.map_values(|t: String| t@) =~= tokens(s@));
    toks
}

/// The text at character offset `i` of `t` (see `char_at`).
pub fn parse_char(t: &String, i: usize) -> (r: String)
    ensures
        r@ == char_at(t@, i as int),
{
    let text = t.as_str();
    if i < text.unicode_len() {
        let r = String::from_str(text.substring_char(i, i + 1));
        assert(r@ =~= char_at(t@, i as int));
        r
    } else {
        let r = String::new();
        assert(r@ =~= char_at(t@, i as int));
        r
    }
}

} // verus!
