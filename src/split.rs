use vstd::prelude::*;

use crate::chars::chars_of;
use crate::error::{Error, ErrorView};

verus! {

/// Where the group whose interior is scanned from `j` ends: the index just past
/// its `>`. A backslash escapes the character after it; a `<` is an error, and so
/// is reaching the end of `s`.
pub open spec fn group_end(s: Seq<char>, j: int) -> Result<int, ErrorView>
    decreases s.len() + 1 - j,
{
    if j < 0 || j >= s.len() {
        Err(ErrorView::UnexpectedEnd)
    } else if s[j] == '\\' {
        group_end(s, j + 2)
    } else if s[j] == '<' {
        Err(ErrorView::UnexpectedGroupOpen)
    } else if s[j] == '>' {
        Ok(j + 1)
    } else {
        group_end(s, j + 1)
    }
}

/// Where the token that starts at `i` ends: a backslash and the character it
/// escapes, a whole group, or a single character. A `>` outside a group is an
/// error.
pub open spec fn token_end(s: Seq<char>, i: int) -> Result<int, ErrorView> {
    if s[i] == '\\' {
        Ok(if i + 2 <= s.len() { i + 2 } else { s.len() as int })
    } else if s[i] == '<' {
        group_end(s, i + 1)
    } else if s[i] == '>' {
        Err(ErrorView::UnexpectedGroupClose)
    } else {
        Ok(i + 1)
    }
}

/// Puts `front` before the items of a successful result; an error stays as it is.
pub open spec fn prepend_ok<A, E>(front: Seq<A>, rest: Result<Seq<A>, E>) -> Result<Seq<A>, E> {
    match rest {
        Ok(t) => Ok(front + t),
        Err(e) => Err(e),
    }
}

/// The tokens of `s` from index `i` on, or the first error met scanning it.
pub open spec fn tokens_from(s: Seq<char>, i: int) -> Result<Seq<Seq<char>>, ErrorView>
    decreases s.len() - i,
{
    if i < 0 || i >= s.len() {
        Ok(Seq::empty())
    } else {
        match token_end(s, i) {
            Err(e) => Err(e),
            Ok(e) => {
                proof {
                    lemma_token_end_bounds(s, i);
                }
                prepend_ok(seq![s.subrange(i, e)], tokens_from(s, e))
            },
        }
    }
}

/// The tokens of a notation string, in order, or the first error met.
pub open spec fn key_tokens(s: Seq<char>) -> Result<Seq<Seq<char>>, ErrorView> {
    tokens_from(s, 0)
}

pub proof fn lemma_group_end_bounds(s: Seq<char>, j: int)
    ensures
        group_end(s, j) matches Ok(e) ==> j < e <= s.len(),
    decreases s.len() + 1 - j,
{
    if j < s.len() {
        if s[j] == '\\' {
            lemma_group_end_bounds(s, j + 2);
        } else if s[j] != '<' && s[j] != '>' {
            lemma_group_end_bounds(s, j + 1);
        }
    }
}

pub proof fn lemma_token_end_bounds(s: Seq<char>, i: int)
    requires
        0 <= i < s.len(),
    ensures
        token_end(s, i) matches Ok(e) ==> i < e <= s.len(),
{
    lemma_group_end_bounds(s, i + 1);
}

/// The text `t` as a list of parts: itself if it is not empty, else nothing.
pub open spec fn nonempty_part(t: Seq<char>) -> Seq<Seq<char>> {
    if t.len() > 0 {
        seq![t]
    } else {
        Seq::empty()
    }
}

/// The parts of `s` when the current part began at `start` and the scan is at
/// `i`. An unescaped `-` ends a part; a backslash escapes the character after it.
pub open spec fn parts_from(s: Seq<char>, start: int, i: int) -> Seq<Seq<char>>
    decreases s.len() + 1 - i,
{
    if i < 0 || i >= s.len() {
        nonempty_part(s.subrange(start, s.len() as int))
    } else if s[i] == '\\' {
        parts_from(s, start, i + 2)
    } else if s[i] == '-' {
        nonempty_part(s.subrange(start, i)) + parts_from(s, i + 1, i + 1)
    } else {
        parts_from(s, start, i + 1)
    }
}

/// The non-empty parts of a group's interior, split on unescaped `-`.
pub open spec fn modifier_parts(s: Seq<char>) -> Seq<Seq<char>> {
    parts_from(s, 0, 0)
}

/// The end of the token that starts at `i`, as [`token_end`] gives it.
fn token_end_at(chars: &Vec<char>, i: usize) -> (r: Result<usize, Error>)
    requires
        i < chars@.len(),
    ensures
        match r {
            Ok(e) => token_end(chars@, i as int) == Ok::<int, ErrorView>(e as int),
            Err(err) => token_end(chars@, i as int) == Err::<int, ErrorView>(err@),
        },
{
    let n = chars.len();
    let c = chars[i];
    if c == '\\' {
        if i + 1 < n {
            Ok(i + 2)
        } else {
            Ok(n)
        }
    } else if c == '>' {
        Err(Error::UnexpectedGroupClose)
    } else if c == '<' {
        let mut j: usize = i + 1;
        while j < n
            invariant
                i < j <= n,
                n == chars@.len(),
                chars@[i as int] == '<',
                group_end(chars@, j as int) == group_end(chars@, i + 1),
            decreases n - j,
        {
            let d = chars[j];
            if d == '\\' {
                if j + 1 >= n {
                    assert(group_end(chars@, j + 2) == Err::<int, ErrorView>(ErrorView::UnexpectedEnd));
                    return Err(Error::UnexpectedEnd);
                }
                j = j + 2;
            } else if d == '<' {
                return Err(Error::UnexpectedGroupOpen);
            } else if d == '>' {
                return Ok(j + 1);
            } else {
                j = j + 1;
            }
        }
        Err(Error::UnexpectedEnd)
    } else {
        Ok(i + 1)
    }
}

/// Splits a notation string into its tokens: single characters, escaped
/// characters (a backslash and the character after it) and whole groups
/// (`<...>`, delimiters included), in input order.
///
/// Fails on a `<` inside a group, a `>` outside one, or an unclosed group.
pub fn split_keys(input: &str) -> (r: Result<Vec<&str>, Error>)
    ensures
        match r {
            Ok(tokens) => key_tokens(input@) == Ok::<Seq<Seq<char>>, ErrorView>(tokens.deep_view()),
            Err(e) => key_tokens(input@) == Err::<Seq<Seq<char>>, ErrorView>(e@),
        },
{
    let chars = chars_of(input);
    let n = chars.len();
    let mut tokens: Vec<&str> = Vec::new();
    let mut i: usize = 0;
    while i < n
        invariant
            chars@ == input@,
            n == chars@.len(),
            i <= n,
            key_tokens(input@) == prepend_ok(tokens.deep_view(), tokens_from(input@, i as int)),
        decreases n - i,
    {
        let end = match token_end_at(&chars, i) {
            Ok(e) => e,
            Err(e) => {
                return Err(e);
            },
        };
        proof {
            lemma_token_end_bounds(input@, i as int);
        }
        let token = input.substring_char(i, end);
        let ghost before = tokens.deep_view();
        tokens.push(token);
        proof {
            assert(tokens.deep_view() =~= before.push(token@));
            match tokens_from(input@, end as int) {
                Ok(rest) => {
                    assert(before + (seq![token@] + rest) =~= tokens.deep_view() + rest);
                },
                Err(_) => {},
            }
        }
        i = end;
    }
    proof {
        assert(tokens.deep_view() + Seq::<Seq<char>>::empty() =~= tokens.deep_view());
    }
    Ok(tokens)
}

/// Splits the interior of a group on unescaped `-`, left to right, leaving out
/// empty parts. A backslash escapes the character after it; escapes stay in the
/// parts, and a backslash that ends the interior is kept as text. This never
/// fails.
pub fn split_modifiers(input: &str) -> (r: Result<Vec<&str>, Error>)
    ensures
        r matches Ok(parts) && parts.deep_view() == modifier_parts(input@),
{
    let chars = chars_of(input);
    let n = chars.len();
    let mut parts: Vec<&str> = Vec::new();
    let mut start: usize = 0;
    let mut i: usize = 0;
    while i < n
        invariant
            chars@ == input@,
            n == chars@.len(),
            start <= i <= n,
            parts.deep_view() + parts_from(input@, start as int, i as int) == modifier_parts(input@),
        decreases n - i,
    {
        let c = chars[i];
        if c == '\\' {
            if i + 1 < n {
                i = i + 2;
            } else {
                assert(parts_from(input@, start as int, i + 2) == parts_from(input@, start as int, n as int));
                i = n;
            }
        } else if c == '-' {
            let ghost before = parts.deep_view();
            if start < i {
                let part = input.substring_char(start, i);
                parts.push(part);
                proof {
                    assert(parts.deep_view() =~= before.push(part@));
                }
            }
            proof {
                let rest = parts_from(input@, i + 1, i + 1);
                assert(before + (nonempty_part(input@.subrange(start as int, i as int)) + rest)
                    =~= parts.deep_view() + rest);
            }
            i = i + 1;
            start = i;
        } else {
            i = i + 1;
        }
    }
    let ghost before = parts.deep_view();
    if start < n {
        let part = input.substring_char(start, n);
        parts.push(part);
        proof {
            assert(parts.deep_view() =~= before.push(part@));
        }
    }
    proof {
        assert(before + nonempty_part(input@.subrange(start as int, n as int)) =~= parts.deep_view());
    }
    Ok(parts)
}

} // verus!
