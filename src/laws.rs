use vstd::prelude::*;

use crate::error::ErrorView;
use crate::key::{bare_key, literal_key, Key, Modifiers};
use crate::parse::{modifier_flags, token_key};
use crate::split::{modifier_parts, parts_from};

verus! {

/// A letter on its own is a key: shift is set exactly when the letter is upper
/// case, and control and alt are never set.
pub proof fn law_letter_shift(c: char)
    requires
        ('a' <= c && c <= 'z') || ('A' <= c && c <= 'Z'),
    ensures
        token_key(seq![c]) matches Ok(key) && key.modifiers == (Modifiers {
            shift: 'A' <= c && c <= 'Z',
            control: false,
            alt: false,
        }),
{
    assert(seq![c][0] == c);
    assert(bare_key(c) matches Some((_, shift)) && shift == ('A' <= c && c <= 'Z'));
}

/// A key spelling that stands last in a group's interior is its last part.
proof fn lemma_literal_is_last_part(s: Seq<char>, i: int)
    requires
        0 <= i <= s.len(),
        literal_key(s.subrange(i, s.len() as int)) is Some,
    ensures
        parts_from(s, i, i) == seq![s.subrange(i, s.len() as int)],
{
    let x = s.subrange(i, s.len() as int);
    assert(x[0] == s[i]);
    if s[i] == '\\' {
        assert(parts_from(s, i, i + 2) == seq![x]);
    } else {
        assert(bare_key('-') is None);
        assert(x.len() == 1);
        assert(parts_from(s, i, i + 1) == seq![x]);
    }
}

/// The text of modifier letters, each followed by `-`: `C-M-` for `CM`.
pub open spec fn modifier_prefix(m: Seq<char>) -> Seq<char>
    decreases m.len(),
{
    if m.len() == 0 {
        Seq::empty()
    } else {
        modifier_prefix(m.drop_last()) + seq![m.last(), '-']
    }
}

/// The group `<`, modifier letters each followed by `-`, a key spelling, `>`.
pub open spec fn group_of(m: Seq<char>, x: Seq<char>) -> Seq<char> {
    seq!['<'] + modifier_prefix(m) + x + seq!['>']
}

/// Whether every one of `m` is a modifier letter, `C` or `M`.
pub open spec fn modifier_letters(m: Seq<char>) -> bool {
    forall|k: int| 0 <= k < m.len() ==> m[k] == 'C' || m[k] == 'M'
}

/// Each letter of `m` as a part of its own.
pub open spec fn letter_parts(m: Seq<char>) -> Seq<Seq<char>> {
    m.map_values(|c: char| seq![c])
}

proof fn lemma_prefix_shape(m: Seq<char>)
    ensures
        modifier_prefix(m).len() == 2 * m.len(),
        forall|k: int|
            0 <= k < m.len() ==> modifier_prefix(m)[2 * k] == #[trigger] m[k] && modifier_prefix(m)[2
                * k + 1] == '-',
    decreases m.len(),
{
    if m.len() > 0 {
        let d = m.drop_last();
        lemma_prefix_shape(d);
        assert forall|k: int| 0 <= k < m.len() implies modifier_prefix(m)[2 * k] == #[trigger] m[k]
            && modifier_prefix(m)[2 * k + 1] == '-' by {
            if k < d.len() {
                assert(m[k] == d[k]);
            }
        }
    }
}

proof fn lemma_prefix_parts(m: Seq<char>, x: Seq<char>, k: int)
    requires
        modifier_letters(m),
        literal_key(x) is Some,
        0 <= k <= m.len(),
    ensures
        parts_from(modifier_prefix(m) + x, 2 * k, 2 * k) == letter_parts(m.subrange(k, m.len() as int))
            + seq![x],
    decreases m.len() - k,
{
    let s = modifier_prefix(m) + x;
    lemma_prefix_shape(m);
    if k == m.len() {
        assert(s.subrange(2 * k, s.len() as int) =~= x);
        lemma_literal_is_last_part(s, 2 * k);
        assert(letter_parts(m.subrange(k, m.len() as int)) =~= Seq::<Seq<char>>::empty());
        assert(Seq::<Seq<char>>::empty() + seq![x] =~= seq![x]);
    } else {
        lemma_prefix_parts(m, x, k + 1);
        assert(s[2 * k] == m[k]);
        assert(s[2 * k + 1] == '-');
        assert(s.subrange(2 * k, 2 * k + 1) =~= seq![m[k]]);
        assert(2 * (k + 1) == 2 * k + 2);
        assert(letter_parts(m.subrange(k, m.len() as int)) =~= seq![seq![m[k]]] + letter_parts(
            m.subrange(k + 1, m.len() as int),
        ));
        assert(parts_from(s, 2 * k, 2 * k) == parts_from(s, 2 * k, 2 * k + 1));
    }
}

proof fn lemma_letter_flags(m: Seq<char>)
    requires
        modifier_letters(m),
    ensures
        modifier_flags(letter_parts(m)) == Ok::<(bool, bool), Seq<char>>(
            (m.contains('C'), m.contains('M')),
        ),
    decreases m.len(),
{
    let parts = letter_parts(m);
    if m.len() == 0 {
        assert(!m.contains('C') && !m.contains('M'));
    } else {
        let d = m.drop_last();
        lemma_letter_flags(d);
        assert(parts.drop_last() =~= letter_parts(d));
        assert(parts.last() == seq![m.last()]);
        assert(seq![m.last()][0] == m.last());
        assert forall|c: char| m.contains(c) <==> (d.contains(c) || m.last() == c) by {
            if m.contains(c) {
                let k = choose|k: int| 0 <= k < m.len() && m[k] == c;
                if k < d.len() {
                    assert(d[k] == c);
                }
            }
            if d.contains(c) {
                let k = choose|k: int| 0 <= k < d.len() && d[k] == c;
                assert(m[k] == c);
            }
            if m.last() == c {
                assert(m[m.len() - 1] == c);
            }
        }
    }
}

/// A group of modifier letters and a key spelling, such as `<C-M-a>`, is the key
/// that the spelling names: control is set exactly when `C` is among the
/// letters, alt exactly when `M` is, and shift is the spelling's own.
pub proof fn law_group_modifiers(m: Seq<char>, x: Seq<char>)
    requires
        m.len() >= 1,
        modifier_letters(m),
        literal_key(x) is Some,
    ensures
        literal_key(x) matches Some((name, shift)) && token_key(group_of(m, x)) == Ok::<
            Key,
            ErrorView,
        >(
            Key {
                name,
                modifiers: Modifiers { shift, control: m.contains('C'), alt: m.contains('M') },
            },
        ),
{
    let t = group_of(m, x);
    let inner = modifier_prefix(m) + x;
    lemma_prefix_shape(m);
    assert(t.subrange(1, t.len() - 1) =~= inner);
    assert(t[0] == '<' && t.last() == '>');
    lemma_prefix_parts(m, x, 0);
    assert(m.subrange(0, m.len() as int) =~= m);
    let parts = letter_parts(m) + seq![x];
    assert(modifier_parts(inner) == parts);
    assert(parts.last() == x);
    assert(parts.drop_last() =~= letter_parts(m));
    lemma_letter_flags(m);
}

/// `<C-x>`, for any key spelling `x`, is the key that `x` names with control
/// set, shift as `x` implies it, and alt not set.
pub proof fn law_control_group(x: Seq<char>)
    requires
        literal_key(x) is Some,
    ensures
        literal_key(x) matches Some((name, shift)) && token_key(seq!['<', 'C', '-'] + x + seq!['>'])
            == Ok::<Key, ErrorView>(
            Key { name, modifiers: Modifiers { shift, control: true, alt: false } },
        ),
{
    let m = seq!['C'];
    assert(m.drop_last() =~= Seq::<char>::empty());
    assert(modifier_prefix(Seq::<char>::empty()) == Seq::<char>::empty());
    assert(m.last() == 'C');
    assert(modifier_prefix(m) =~= seq!['C', '-']);
    assert(group_of(m, x) =~= seq!['<', 'C', '-'] + x + seq!['>']);
    law_group_modifiers(m, x);
    assert(m.contains('C'));
    assert(!m.contains('M')) by {
        if m.contains('M') {
            let k = choose|k: int| 0 <= k < m.len() && m[k] == 'M';
        }
    }
}

/// The order of the modifier letters in a group does not matter, nor does
/// repeating one: `<C-M-x>` and `<M-C-x>` are the same key.
pub proof fn law_modifier_order(m1: Seq<char>, m2: Seq<char>, x: Seq<char>)
    requires
        m1.len() >= 1,
        m2.len() >= 1,
        modifier_letters(m1),
        modifier_letters(m2),
        m1.to_set() == m2.to_set(),
        literal_key(x) is Some,
    ensures
        token_key(group_of(m1, x)) is Ok,
        token_key(group_of(m1, x)) == token_key(group_of(m2, x)),
{
    law_group_modifiers(m1, x);
    law_group_modifiers(m2, x);
    assert(m1.to_set().contains('C') == m1.contains('C'));
    assert(m2.to_set().contains('C') == m2.contains('C'));
    assert(m1.to_set().contains('M') == m1.contains('M'));
    assert(m2.to_set().contains('M') == m2.contains('M'));
}

} // verus!
