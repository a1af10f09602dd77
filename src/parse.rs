use vstd::prelude::*;

use crate::error::{Error, ErrorView};
use crate::key::{literal_key, Key, KeyName, Keys, Modifiers};
use crate::split::{key_tokens, modifier_parts, prepend_ok, split_keys, split_modifiers};

verus! {

/// Whether a token is a group: it starts with `<` and ends with `>`.
pub open spec fn is_group(t: Seq<char>) -> bool {
    t.len() >= 2 && t[0] == '<' && t.last() == '>'
}

/// The key that a token outside any group spells: only its implicit shift is
/// set.
pub open spec fn plain_key(t: Seq<char>) -> Result<Key, ErrorView> {
    match literal_key(t) {
        Some((name, shift)) => Ok(Key { modifiers: Modifiers { shift, control: false, alt: false }, name }),
        None => Err(ErrorView::InvalidKeyName(t)),
    }
}

/// The control and alt flags that modifier parts set, read left to right; the
/// first part that is neither `C` nor `M` is returned as an error.
pub open spec fn modifier_flags(parts: Seq<Seq<char>>) -> Result<(bool, bool), Seq<char>>
    decreases parts.len(),
{
    if parts.len() == 0 {
        Ok((false, false))
    } else {
        match modifier_flags(parts.drop_last()) {
            Err(p) => Err(p),
            Ok((control, alt)) => {
                if parts.last() == seq!['C'] {
                    Ok((true, alt))
                } else if parts.last() == seq!['M'] {
                    Ok((control, true))
                } else {
                    Err(parts.last())
                }
            },
        }
    }
}

/// The key that a group's interior spells: modifier parts, then a key name.
pub open spec fn group_key(inner: Seq<char>) -> Result<Key, ErrorView> {
    let parts = modifier_parts(inner);
    if parts.len() < 2 {
        Err(ErrorView::IncompleteGroup(inner))
    } else {
        match literal_key(parts.last()) {
            None => Err(ErrorView::InvalidKeyName(parts.last())),
            Some((name, shift)) => match modifier_flags(parts.drop_last()) {
                Err(p) => Err(ErrorView::InvalidKeyModifier(p)),
                Ok((control, alt)) => Ok(Key { modifiers: Modifiers { shift, control, alt }, name }),
            },
        }
    }
}

/// The key that one token spells.
pub open spec fn token_key(t: Seq<char>) -> Result<Key, ErrorView> {
    if is_group(t) {
        group_key(t.subrange(1, t.len() - 1))
    } else {
        plain_key(t)
    }
}

/// The keys of the tokens from index `k` on, or the first token's error.
pub open spec fn keys_from(tokens: Seq<Seq<char>>, k: int) -> Result<Seq<Key>, ErrorView>
    decreases tokens.len() - k,
{
    if k < 0 || k >= tokens.len() {
        Ok(Seq::empty())
    } else {
        match token_key(tokens[k]) {
            Err(e) => Err(e),
            Ok(key) => prepend_ok(seq![key], keys_from(tokens, k + 1)),
        }
    }
}

/// The keys that a notation string spells, in order, or the first error met.
pub open spec fn notation_keys(s: Seq<char>) -> Result<Seq<Key>, ErrorView> {
    match key_tokens(s) {
        Err(e) => Err(e),
        Ok(tokens) => keys_from(tokens, 0),
    }
}

/// Whether `t` is the single character `c`.
fn is_single(t: &str, c: char) -> (r: bool)
    ensures
        r == (t@ == seq![c]),
{
    let n = t.unicode_len();
    if n == 1 {
        let first = t.get_char(0);
        proof {
            if first == c {
                assert(t@ =~= seq![c]);
            }
        }
        first == c
    } else {
        false
    }
}

/// Parses one token: a group (`<C-a>`) or a single spelling (`a`, `\-`).
pub fn parse_key(input: &str) -> (r: Result<Key, Error>)
    ensures
        match r {
            Ok(key) => token_key(input@) == Ok::<Key, ErrorView>(key),
            Err(e) => token_key(input@) == Err::<Key, ErrorView>(e@),
        },
{
    let n = input.unicode_len();
    if n >= 2 && input.get_char(0) == '<' && input.get_char(n - 1) == '>' {
        parse_key_with_modifier(input.substring_char(1, n - 1))
    } else {
        parse_key_no_modifier(input)
    }
}

fn parse_key_no_modifier(input: &str) -> (r: Result<Key, Error>)
    ensures
        match r {
            Ok(key) => plain_key(input@) == Ok::<Key, ErrorView>(key),
            Err(e) => plain_key(input@) == Err::<Key, ErrorView>(e@),
        },
{
    match KeyName::from_str(input) {
        Some((name, shift)) => Ok(Key { modifiers: Modifiers { shift, control: false, alt: false }, name }),
        None => Err(Error::InvalidKeyName(input.to_owned())),
    }
}

fn parse_key_with_modifier(input: &str) -> (r: Result<Key, Error>)
    ensures
        match r {
            Ok(key) => group_key(input@) == Ok::<Key, ErrorView>(key),
            Err(e) => group_key(input@) == Err::<Key, ErrorView>(e@),
        },
{
    let parts = match split_modifiers(input) {
        Ok(parts) => parts,
        Err(e) => {
            return Err(e);
        },
    };
    let ghost views = parts.deep_view();
    let count = parts.len();
    if count < 2 {
        return Err(Error::IncompleteGroup(input.to_owned()));
    }
    let last = parts[count - 1];
    assert(last@ == views.last());
    let (name, shift) = match KeyName::from_str(last) {
        Some(found) => found,
        None => {
            return Err(Error::InvalidKeyName(last.to_owned()));
        },
    };
    let mut control = false;
    let mut alt = false;
    let mut k: usize = 0;
    while k < count - 1
        invariant
            count == parts@.len(),
            2 <= count,
            k < count,
            views == parts.deep_view(),
            views == modifier_parts(input@),
            literal_key(views.last()) == Some((name, shift)),
            modifier_flags(views.subrange(0, k as int)) == Ok::<(bool, bool), Seq<char>>((control, alt)),
        decreases count - 1 - k,
    {
        let part = parts[k];
        assert(views.subrange(0, k + 1).drop_last() =~= views.subrange(0, k as int));
        assert(part@ == views[k as int]);
        if is_single(part, 'C') {
            control = true;
        } else if is_single(part, 'M') {
            alt = true;
        } else {
            proof {
                let heads = views.subrange(0, count - 1);
                assert(views.subrange(0, k + 1).last() == part@);
                assert(modifier_flags(views.subrange(0, k + 1)) == Err::<(bool, bool), Seq<char>>(part@));
                assert(heads.subrange(0, k + 1) =~= views.subrange(0, k + 1));
                lemma_modifier_error_persists(heads, k + 1);
                assert(views.drop_last() =~= heads);
            }
            return Err(Error::InvalidKeyModifier(part.to_owned()));
        }
        k = k + 1;
    }
    assert(views.drop_last() =~= views.subrange(0, count - 1));
    Ok(Key { modifiers: Modifiers { shift, control, alt }, name })
}

/// Parses a whole notation string into its keys, in input order.
///
/// All or nothing: the tokenizer's error, or else the first token's error, is
/// returned. An empty string has no keys.
pub fn parse_keys(input: &str) -> (r: Result<Keys, Error>)
    ensures
        match r {
            Ok(keys) => notation_keys(input@) == Ok::<Seq<Key>, ErrorView>(keys@),
            Err(e) => notation_keys(input@) == Err::<Seq<Key>, ErrorView>(e@),
        },
        input@.len() == 0 ==> (r matches Ok(keys) && keys@.len() == 0),
{
    let tokens = match split_keys(input) {
        Ok(tokens) => tokens,
        Err(e) => {
            return Err(e);
        },
    };
    let ghost views = tokens.deep_view();
    let mut keys: Vec<Key> = Vec::new();
    let mut k: usize = 0;
    while k < tokens.len()
        invariant
            views == tokens.deep_view(),
            key_tokens(input@) == Ok::<Seq<Seq<char>>, ErrorView>(views),
            k <= tokens.len(),
            keys_from(views, 0) == prepend_ok(keys@, keys_from(views, k as int)),
        decreases tokens.len() - k,
    {
        let token = tokens[k];
        assert(token@ == views[k as int]);
        let key = match parse_key(token) {
            Ok(key) => key,
            Err(e) => {
                return Err(e);
            },
        };
        let ghost before = keys@;
        keys.push(key);
        proof {
            match keys_from(views, k + 1) {
                Ok(rest) => {
                    assert(before + (seq![key] + rest) =~= keys@ + rest);
                },
                Err(_) => {},
            }
        }
        k = k + 1;
    }
    assert(keys@ + Seq::<Key>::empty() =~= keys@);
    Ok(Keys(keys))
}

/// Once a prefix of the modifier parts has an error, every longer prefix has
/// the same one.
proof fn lemma_modifier_error_persists(parts: Seq<Seq<char>>, m: int)
    requires
        0 <= m <= parts.len(),
        modifier_flags(parts.subrange(0, m)) is Err,
    ensures
        modifier_flags(parts) == modifier_flags(parts.subrange(0, m)),
    decreases parts.len() - m,
{
    if m < parts.len() {
        assert(parts.drop_last().subrange(0, m) =~= parts.subrange(0, m));
        lemma_modifier_error_persists(parts.drop_last(), m);
    } else {
        assert(parts.subrange(0, m) =~= parts);
    }
}

} // verus!
