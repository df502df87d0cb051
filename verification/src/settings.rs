//! Settings that the bot reads as text: the list of channels in which it
//! stays silent.
use crate::text::{slice_chars, to_chars};
use vstd::prelude::*;

verus! {

/// Whether `c` is an ASCII decimal digit.
pub open spec fn is_digit(c: char) -> bool {
    '0' <= c && c <= '9'
}

/// The value of a decimal digit.
pub open spec fn digit_value(c: char) -> nat {
    (c as nat - '0' as nat) as nat
}

/// The number that a text of decimal digits denotes.
pub open spec fn digits_value(s: Seq<char>) -> nat
    decreases s.len(),
{
    if s.len() == 0 {
        0
    } else {
        digits_value(s.drop_last()) * 10 + digit_value(s.last())
    }
}

/// Whether every character of `s` is a decimal digit.
pub open spec fn all_digits(s: Seq<char>) -> bool {
    forall|i: int| 0 <= i < s.len() ==> is_digit(#[trigger] s[i])
}

/// `s` without a leading plus sign.
pub open spec fn unsigned_part(s: Seq<char>) -> Seq<char> {
    if s.len() > 0 && s[0] == '+' {
        s.skip(1)
    } else {
        s
    }
}

/// The identifier that `s` denotes: one or more decimal digits, with or
/// without a plus sign before them, whose value fits in 64 bits. Any other
/// text denotes none.
pub open spec fn parsed_id(s: Seq<char>) -> Option<nat> {
    let body = unsigned_part(s);
    if body.len() > 0 && all_digits(body) && digits_value(body) <= u64::MAX {
        Some(digits_value(body))
    } else {
        None
    }
}

/// Index of the first comma of `s`, or the length of `s` if it has none.
pub open spec fn field_end(s: Seq<char>) -> nat
    decreases s.len(),
{
    if s.len() == 0 || s[0] == ',' {
        0
    } else {
        1 + field_end(s.skip(1))
    }
}

/// The identifiers listed in `s`, in order: the text is cut at its commas,
/// and every piece that denotes an identifier gives it; the other pieces
/// are passed over.
pub open spec fn listed_ids(s: Seq<char>) -> Seq<nat>
    decreases s.len(),
{
    let n = field_end(s) as int;
    let rest = if n < s.len() {
        listed_ids(s.skip(n + 1))
    } else {
        seq![]
    };
    match parsed_id(s.take(n)) {
        Some(id) => seq![id] + rest,
        None => rest,
    }
}

/// The numbers of a list of identifiers.
pub open spec fn id_values(ids: Seq<u64>) -> Seq<nat> {
    Seq::new(ids.len(), |i: int| ids[i] as nat)
}

/// A number only grows as digits are added at its end.
pub proof fn lemma_digits_value_grows(s: Seq<char>, j: int)
    requires
        0 <= j <= s.len(),
    ensures
        digits_value(s.take(j)) <= digits_value(s),
    decreases s.len() - j,
{
    if j == s.len() {
        assert(s.take(j) =~= s);
    } else {
        lemma_digits_value_grows(s, j + 1);
        assert(s.take(j + 1).drop_last() =~= s.take(j));
    }
}

/// The identifier that `s` denotes, if it denotes one.
pub fn parse_id(s: &Vec<char>) -> (id: Option<u64>)
    ensures
        id is Some <==> parsed_id(s@) is Some,
        id is Some ==> id->0 as nat == parsed_id(s@)->0,
{
    let start: usize = if s.len() > 0 && s[0] == '+' {
        1
    } else {
        0
    };
    let ghost body = unsigned_part(s@);
    assert(body =~= s@.skip(start as int));
    if start >= s.len() {
        return None;
    }
    let mut value: u64 = 0;
    let mut i: usize = start;
    assert(body.take(0) =~= Seq::<char>::empty());
    while i < s.len()
        invariant
            start <= i <= s.len(),
            body == s@.skip(start as int),
            body == unsigned_part(s@),
            value as nat == digits_value(body.take(i - start)),
            forall|k: int| 0 <= k < i - start ==> is_digit(#[trigger] body[k]),
        decreases s.len() - i,
    {
        let c = s[i];
        assert(body[i - start] == c);
        if c < '0' || c > '9' {
            assert(!is_digit(body[i - start]));
            return None;
        }
        let d: u64 = (c as u64) - ('0' as u64);
        proof {
            assert(body.take(i - start + 1).drop_last() =~= body.take(i - start));
            assert(body.take(i - start + 1).last() == c);
            assert(digit_value(c) == d as nat);
            lemma_digits_value_grows(body, i - start + 1);
        }
        if value > (u64::MAX - d) / 10 {
            assert(digits_value(body.take(i - start + 1)) > u64::MAX) by (nonlinear_arith)
                requires
                    digits_value(body.take(i - start + 1)) == value as nat * 10 + d as nat,
                    value > (u64::MAX - d) / 10,
                    d < 10,
            ;
            return None;
        }
        assert(value * 10 + d <= u64::MAX) by (nonlinear_arith)
            requires
                value <= (u64::MAX - d) / 10,
                d < 10,
        ;
        value = value * 10 + d;
        i += 1;
    }
    assert(body.take(s.len() - start) =~= body);
    Some(value)
}

/// The identifiers listed in `s`, in order.
pub fn parse_ids(s: &str) -> (ids: Vec<u64>)
    ensures
        id_values(ids@) == listed_ids(s@),
{
    let chars = to_chars(s);
    let mut ids: Vec<u64> = Vec::new();
    let mut start: usize = 0;
    let mut done = false;
    assert(chars@.skip(0) =~= chars@);
    while !done
        invariant
            start <= chars.len(),
            chars@ == s@,
            !done ==> id_values(ids@) + listed_ids(chars@.skip(start as int)) == listed_ids(s@),
            done ==> id_values(ids@) == listed_ids(s@),
        decreases chars.len() - start + (if done { 0int } else { 1int }),
    {
        let ghost rest = chars@.skip(start as int);
        let ghost before = ids@;
        let mut end: usize = start;
        assert(chars@.skip(end as int) =~= rest);
        while end < chars.len() && chars[end] != ','
            invariant
                start <= end <= chars.len(),
                rest == chars@.skip(start as int),
                field_end(rest) == (end - start) + field_end(chars@.skip(end as int)),
            decreases chars.len() - end,
        {
            assert(chars@.skip(end as int).skip(1) =~= chars@.skip(end + 1));
            end += 1;
        }
        assert(field_end(rest) == end - start);
        let field = slice_chars(&chars, start, end);
        assert(field@ =~= rest.take(end - start));
        let parsed = parse_id(&field);
        match parsed {
            Some(id) => {
                ids.push(id);
                assert(id_values(ids@) =~= id_values(before) + seq![id as nat]);
            },
            None => {},
        }
        if end < chars.len() {
            assert(rest.skip(end - start + 1) =~= chars@.skip(end + 1));
            proof {
                let tail = listed_ids(chars@.skip(end + 1));
                if parsed is Some {
                    assert(id_values(before) + (seq![parsed->0 as nat] + tail) =~= (id_values(
                        before,
                    ) + seq![parsed->0 as nat]) + tail);
                }
            }
            start = end + 1;
        } else {
            proof {
                if parsed is Some {
                    assert(seq![parsed->0 as nat] + Seq::<nat>::empty() =~= seq![
                        parsed->0 as nat,
                    ]);
                } else {
                    assert(id_values(before) + Seq::<nat>::empty() =~= id_values(before));
                }
            }
            done = true;
        }
    }
    ids
}

/// Whether `channel` is one of the listed channels.
pub fn is_ignored(ids: &Vec<u64>, channel: u64) -> (b: bool)
    ensures
        b == ids@.contains(channel),
{
    let mut i: usize = 0;
    while i < ids.len()
        invariant
            i <= ids.len(),
            forall|k: int| 0 <= k < i ==> ids@[k] != channel,
        decreases ids.len() - i,
    {
        if ids[i] == channel {
            return true;
        }
        i += 1;
    }
    false
}

} // verus!
