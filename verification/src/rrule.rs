//! The recurrence-rule grammar: an `RRULE` value is a `;`-separated list of
//! `KEY=VALUE` components, and a component without an `=` silently ends the
//! reading of the remaining ones.

use vstd::prelude::*;

use crate::model::RecurrenceRule;

verus! {

/// Index of the first occurrence of `c` in `s`, or `s.len()` when absent.
pub open spec fn find_char(s: Seq<char>, c: char) -> int
    decreases s.len(),
{
    if s.len() == 0 {
        0
    } else if s[0] == c {
        0
    } else {
        1 + find_char(s.drop_first(), c)
    }
}

proof fn lemma_find_char_at(s: Seq<char>, c: char, i: int)
    requires
        0 <= i <= s.len(),
        forall|k: int| 0 <= k < i ==> s[k] != c,
        i < s.len() ==> s[i] == c,
    ensures
        find_char(s, c) == i,
    decreases s.len(),
{
    if s.len() == 0 {
    } else if s[0] == c {
        assert(i == 0);
    } else {
        assert(i >= 1);
        assert forall|k: int| 0 <= k < i - 1 implies s.drop_first()[k] != c by {
            assert(s.drop_first()[k] == s[k + 1]);
        }
        assert(i - 1 < s.drop_first().len() ==> s.drop_first()[i - 1] == s[i]);
        lemma_find_char_at(s.drop_first(), c, i - 1);
    }
}

/// The `KEY=VALUE` component a segment denotes: the key is the text before
/// the first `=`, the value the text between the first and the second `=`
/// (or the end). A segment without an `=` is malformed.
pub open spec fn component_of(seg: Seq<char>) -> Option<(Seq<char>, Seq<char>)> {
    let i = find_char(seg, '=');
    if 0 <= i < seg.len() {
        let rest = seg.subrange(i + 1, seg.len() as int);
        Some((seg.subrange(0, i), rest.subrange(0, find_char(rest, '='))))
    } else {
        None
    }
}

/// The components an `RRULE` value denotes, in feed order; a malformed
/// component ends the list and the remainder is not read.
pub open spec fn rule_components_of(s: Seq<char>) -> Seq<(Seq<char>, Seq<char>)>
    decreases s.len(),
{
    let j = find_char(s, ';');
    if 0 <= j < s.len() {
        match component_of(s.subrange(0, j)) {
            Some(kv) => seq![kv] + rule_components_of(s.subrange(j + 1, s.len() as int)),
            None => Seq::empty(),
        }
    } else {
        match component_of(s) {
            Some(kv) => seq![kv],
            None => Seq::empty(),
        }
    }
}

/// The value of the rule component with the given key; a later component
/// with the same key takes precedence.
pub open spec fn rule_value(rule: Seq<(Seq<char>, Seq<char>)>, key: Seq<char>) -> Option<Seq<char>>
    decreases rule.len(),
{
    if rule.len() == 0 {
        None
    } else if rule.last().0 == key {
        Some(rule.last().1)
    } else {
        rule_value(rule.drop_last(), key)
    }
}

/// First position of `c` in `s` at or after `from` and before `to`, or `to`.
fn scan_char(s: &str, from: usize, to: usize, c: char) -> (r: usize)
    requires
        from <= to <= s@.len(),
    ensures
        from <= r <= to,
        forall|k: int| from <= k < r ==> s@[k] != c,
        r < to ==> s@[r as int] == c,
{
    let mut j = from;
    loop
        invariant
            from <= j <= to <= s@.len(),
            forall|k: int| from <= k < j ==> s@[k] != c,
        decreases to - j,
    {
        if j == to {
            return j;
        }
        if s.get_char(j) == c {
            return j;
        }
        j = j + 1;
    }
}

/// Parses an `RRULE` value into its components.
pub fn parse_rule_components(s: &str) -> (r: RecurrenceRule)
    ensures
        r@ == rule_components_of(s@),
{
    let n = s.unicode_len();
    let mut components: Vec<(String, String)> = Vec::new();
    let mut pos: usize = 0;
    proof {
        assert(s@.subrange(0, n as int) =~= s@);
        assert(components.deep_view() + rule_components_of(s@) =~= rule_components_of(s@));
    }
    loop
        invariant
            pos <= n,
            n == s@.len(),
            rule_components_of(s@) == components.deep_view() + rule_components_of(
                s@.subrange(pos as int, n as int),
            ),
        decreases n - pos,
    {
        let ghost rem = s@.subrange(pos as int, n as int);
        let j = scan_char(s, pos, n, ';');
        let i = scan_char(s, pos, j, '=');
        proof {
            assert forall|k: int| 0 <= k < j - pos implies rem[k] != ';' by {
                assert(rem[k] == s@[pos + k]);
            }
            assert(j - pos < rem.len() ==> rem[j - pos] == s@[j as int]);
            lemma_find_char_at(rem, ';', j - pos);
        }
        let ghost seg = s@.subrange(pos as int, j as int);
        proof {
            assert(seg =~= rem.subrange(0, j - pos));
            if j == n {
                assert(seg =~= rem);
            }
        }
        if i == j {
            // No `=`: the segment is malformed and reading stops here.
            proof {
                assert forall|k: int| 0 <= k < seg.len() implies seg[k] != '=' by {
                    assert(seg[k] == s@[pos + k]);
                }
                lemma_find_char_at(seg, '=', seg.len() as int);
                assert(component_of(seg) is None);
                assert(rule_components_of(rem) =~= Seq::<(Seq<char>, Seq<char>)>::empty());
                assert(rule_components_of(s@) =~= components.deep_view());
            }
            return RecurrenceRule { components };
        }
        let i2 = scan_char(s, i + 1, j, '=');
        let key = String::from_str(s.substring_char(pos, i));
        let value = String::from_str(s.substring_char(i + 1, i2));
        let ghost kv = (key@, value@);
        proof {
            assert forall|k: int| 0 <= k < i - pos implies seg[k] != '=' by {
                assert(seg[k] == s@[pos + k]);
            }
            assert(seg[i - pos] == s@[i as int]);
            lemma_find_char_at(seg, '=', i - pos);
            let rest = seg.subrange(i - pos + 1, seg.len() as int);
            assert forall|k: int| 0 <= k < i2 - i - 1 implies rest[k] != '=' by {
                assert(rest[k] == s@[i + 1 + k]);
            }
            assert(i2 - i - 1 < rest.len() ==> rest[i2 - i - 1] == s@[i2 as int]);
            lemma_find_char_at(rest, '=', i2 - i - 1);
            assert(seg.subrange(0, i - pos) =~= s@.subrange(pos as int, i as int));
            assert(rest.subrange(0, i2 - i - 1) =~= s@.subrange(i + 1, i2 as int));
            assert(key@ == s@.subrange(pos as int, i as int));
            assert(component_of(seg) == Some(kv));
        }
        let ghost before = components.deep_view();
        components.push((key, value));
        proof {
            assert(components.deep_view() =~= before.push(kv));
        }
        if j == n {
            proof {
                assert(rule_components_of(rem) =~= seq![kv]);
                assert(before.push(kv) =~= before + seq![kv]);
                assert(rule_components_of(s@) =~= components.deep_view());
            }
            return RecurrenceRule { components };
        }
        proof {
            let tail = s@.subrange(j + 1, n as int);
            assert(rem.subrange(j - pos + 1, rem.len() as int) =~= tail);
            assert(rule_components_of(rem) == seq![kv] + rule_components_of(tail));
            assert(components.deep_view() + rule_components_of(tail) =~= before + (seq![kv]
                + rule_components_of(tail)));
            assert(rule_components_of(s@) == components.deep_view() + rule_components_of(tail));
        }
        pos = j + 1;
    }
}

} // verus!
