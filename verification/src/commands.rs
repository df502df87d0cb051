//! What the bot's commands answer. Each command computes its reply here
//! from plain values; sending the reply is the caller's work.
use crate::text::{append_chars, from_chars, same_chars, starts_with, string_views, to_chars};
use vstd::prelude::*;

verus! {

/// `/champions`: lists every champion that can be chosen.
#[derive(Debug, PartialEq, Eq)]
pub struct ChampionsCommand {}

/// `/iam`: sets the champion that the user is quoted as.
#[derive(Debug, PartialEq, Eq)]
pub struct IamCommand {
    pub champion: String,
}

/// `/setrate`: sets the share of the user's messages that are quoted.
#[derive(Debug, PartialEq, Eq)]
pub struct SetrateCommand {
    pub percentage: i64,
}

/// `/whoami`: shows the champion that the user is quoted as.
#[derive(Debug, PartialEq, Eq)]
pub struct WhoamiCommand {}

/// The most choices that a completion may offer.
pub const MAX_CHOICES: usize = 25;

/// The rate, in percent, of a user who has not set one.
pub const DEFAULT_RATE: i64 = 10;

/// The names one after another, each followed by a line feed.
pub open spec fn listing(names: Seq<Seq<char>>) -> Seq<char>
    decreases names.len(),
{
    if names.len() == 0 {
        Seq::empty()
    } else {
        listing(names.drop_last()) + names.last() + "\n"@
    }
}

/// Whether `name` is one of `names`.
pub open spec fn is_listed(names: Seq<Seq<char>>, name: Seq<char>) -> bool {
    exists|i: int| 0 <= i < names.len() && names[i] == name
}

/// The names that begin with `typed`, in the order of `names`.
pub open spec fn beginning_with(names: Seq<Seq<char>>, typed: Seq<char>) -> Seq<Seq<char>>
    decreases names.len(),
{
    if names.len() == 0 {
        seq![]
    } else if typed.is_prefix_of(names.last()) {
        beginning_with(names.drop_last(), typed).push(names.last())
    } else {
        beginning_with(names.drop_last(), typed)
    }
}

/// The first `limit` items of `items`, or all of them if there are fewer.
pub open spec fn at_most(items: Seq<Seq<char>>, limit: int) -> Seq<Seq<char>> {
    if items.len() > limit {
        items.take(limit)
    } else {
        items
    }
}

/// The decimal digit of a number below ten.
pub open spec fn digit_char(d: nat) -> char {
    if d == 0 {
        '0'
    } else if d == 1 {
        '1'
    } else if d == 2 {
        '2'
    } else if d == 3 {
        '3'
    } else if d == 4 {
        '4'
    } else if d == 5 {
        '5'
    } else if d == 6 {
        '6'
    } else if d == 7 {
        '7'
    } else if d == 8 {
        '8'
    } else {
        '9'
    }
}

/// The decimal digits of `n`, most significant first, without leading zeros.
pub open spec fn digits_of(n: nat) -> Seq<char>
    decreases n,
{
    if n < 10 {
        seq![digit_char(n)]
    } else {
        digits_of(n / 10).push(digit_char(n % 10))
    }
}

/// `n` in decimal, with a minus sign before a negative number.
pub open spec fn decimal_of(n: int) -> Seq<char> {
    if n < 0 {
        seq!['-'] + digits_of((-n) as nat)
    } else {
        digits_of(n as nat)
    }
}

/// The answer to `/iam`.
pub open spec fn iam_reply(champion: Seq<char>, is_valid: bool, saved: bool) -> Seq<char> {
    if !is_valid {
        "Invalid champion."@
    } else if saved {
        "You are now "@ + champion + "."@
    } else {
        "Failed to update your champion."@
    }
}

/// The answer to `/setrate`.
pub open spec fn setrate_reply(percentage: int, saved: bool) -> Seq<char> {
    if saved {
        "Done. Your quote rate is now "@ + decimal_of(percentage) + "%"@
    } else {
        "Failed to update your quote rate."@
    }
}

/// The decimal digit of a number below ten.
pub fn digit(d: u64) -> (c: char)
    requires
        d < 10,
    ensures
        c == digit_char(d as nat),
{
    if d == 0 {
        '0'
    } else if d == 1 {
        '1'
    } else if d == 2 {
        '2'
    } else if d == 3 {
        '3'
    } else if d == 4 {
        '4'
    } else if d == 5 {
        '5'
    } else if d == 6 {
        '6'
    } else if d == 7 {
        '7'
    } else if d == 8 {
        '8'
    } else {
        '9'
    }
}

/// Appends the decimal digits of `n` to `out`.
pub fn push_digits(out: &mut Vec<char>, n: u64)
    ensures
        final(out)@ == old(out)@ + digits_of(n as nat),
    decreases n,
{
    if n < 10 {
        out.push(digit(n));
        assert(out@ =~= old(out)@ + digits_of(n as nat));
    } else {
        push_digits(out, n / 10);
        out.push(digit(n % 10));
        assert(out@ =~= old(out)@ + digits_of(n as nat));
    }
}

/// `n` in decimal.
pub fn decimal(n: i64) -> (out: Vec<char>)
    ensures
        out@ == decimal_of(n as int),
{
    let mut out: Vec<char> = Vec::new();
    if n < 0 {
        out.push('-');
        let magnitude: u64 = (-(n + 1)) as u64 + 1;
        push_digits(&mut out, magnitude);
    } else {
        push_digits(&mut out, n as u64);
        assert(out@ =~= decimal_of(n as int));
    }
    out
}

impl ChampionsCommand {
    /// The answer to `/champions`: the names of the roster, one per line.
    pub fn reply(&self, names: &Vec<String>) -> (text: String)
        ensures
            text@ == listing(string_views(names@)),
    {
        let ghost all = string_views(names@);
        let mut out: Vec<char> = Vec::new();
        let feed = to_chars("\n");
        let mut i: usize = 0;
        while i < names.len()
            invariant
                i <= names.len(),
                all == string_views(names@),
                feed@ == "\n"@,
                out@ == listing(all.take(i as int)),
            decreases names.len() - i,
        {
            assert(all.take(i + 1).drop_last() =~= all.take(i as int));
            assert(all.take(i + 1).last() == names@[i as int]@);
            let name = to_chars(names[i].as_str());
            append_chars(&mut out, &name);
            append_chars(&mut out, &feed);
            i += 1;
        }
        assert(all.take(names.len() as int) =~= all);
        from_chars(&out)
    }
}

impl IamCommand {
    /// Whether the chosen champion is one of the roster.
    pub fn is_valid(&self, names: &Vec<String>) -> (b: bool)
        ensures
            b == is_listed(string_views(names@), self.champion@),
    {
        let wanted = to_chars(self.champion.as_str());
        let mut i: usize = 0;
        while i < names.len()
            invariant
                i <= names.len(),
                wanted@ == self.champion@,
                forall|k: int| 0 <= k < i ==> string_views(names@)[k] != self.champion@,
            decreases names.len() - i,
        {
            let name = to_chars(names[i].as_str());
            if same_chars(&name, &wanted) {
                assert(string_views(names@)[i as int] == self.champion@);
                return true;
            }
            i += 1;
        }
        false
    }

    /// The answer to `/iam`, given whether the champion is one of the
    /// roster and, if it is, whether the choice could be stored.
    pub fn reply(&self, is_valid: bool, saved: bool) -> (text: String)
        ensures
            text@ == iam_reply(self.champion@, is_valid, saved),
    {
        if !is_valid {
            "Invalid champion.".to_string()
        } else if saved {
            let mut out = to_chars("You are now ");
            append_chars(&mut out, &to_chars(self.champion.as_str()));
            append_chars(&mut out, &to_chars("."));
            from_chars(&out)
        } else {
            "Failed to update your champion.".to_string()
        }
    }

    /// The completions offered for what was typed so far: the names of the
    /// roster that begin with it, in roster order, twenty-five at most.
    pub fn choices(&self, names: &Vec<String>) -> (found: Vec<String>)
        ensures
            string_views(found@) == at_most(
                beginning_with(string_views(names@), self.champion@),
                MAX_CHOICES as int,
            ),
    {
        let ghost all = string_views(names@);
        let typed = to_chars(self.champion.as_str());
        let mut found: Vec<String> = Vec::new();
        let mut i: usize = 0;
        assert(string_views(found@) =~= beginning_with(all.take(0), typed@));
        while i < names.len() && found.len() < MAX_CHOICES
            invariant
                i <= names.len(),
                all == string_views(names@),
                typed@ == self.champion@,
                found.len() <= MAX_CHOICES,
                string_views(found@) == beginning_with(all.take(i as int), typed@),
            decreases names.len() - i,
        {
            let ghost before = found@;
            assert(all.take(i + 1).drop_last() =~= all.take(i as int));
            assert(all.take(i + 1).last() == names@[i as int]@);
            let name = to_chars(names[i].as_str());
            if starts_with(&name, &typed) {
                found.push(names[i].clone());
                assert(string_views(found@) =~= string_views(before).push(names@[i as int]@));
            }
            i += 1;
        }
        proof {
            assert(all =~= all.take(i as int) + all.skip(i as int));
            lemma_beginning_with_in_order(all.take(i as int), all.skip(i as int), typed@);
            let head = beginning_with(all.take(i as int), typed@);
            let tail = beginning_with(all.skip(i as int), typed@);
            if i < names.len() {
                assert((head + tail).take(MAX_CHOICES as int) =~= head);
            } else {
                assert(all.skip(i as int) =~= Seq::<Seq<char>>::empty());
                assert(head + tail =~= head);
                assert(head.take(MAX_CHOICES as int) =~= head || head.len() < MAX_CHOICES);
            }
        }
        found
    }
}

impl SetrateCommand {
    /// The answer to `/setrate`, given whether the rate could be stored.
    pub fn reply(&self, saved: bool) -> (text: String)
        ensures
            text@ == setrate_reply(self.percentage as int, saved),
    {
        if saved {
            let mut out = to_chars("Done. Your quote rate is now ");
            append_chars(&mut out, &decimal(self.percentage));
            append_chars(&mut out, &to_chars("%"));
            from_chars(&out)
        } else {
            "Failed to update your quote rate.".to_string()
        }
    }
}

impl WhoamiCommand {
    /// The answer to `/whoami`: the user's champion, where it could be
    /// fetched.
    pub fn reply(&self, champion: Option<String>) -> (text: String)
        ensures
            text@ == match champion {
                Some(name) => name@,
                None => "Failed to fetch your champion."@,
            },
    {
        match champion {
            Some(name) => name,
            None => "Failed to fetch your champion.".to_string(),
        }
    }
}

/// The answer to `/whois`: the champion of the user asked about, where it
/// could be fetched.
pub fn whois_reply(champion: Option<String>) -> (text: String)
    ensures
        text@ == match champion {
            Some(name) => name@,
            None => "Failed to fetch their champion."@,
        },
{
    match champion {
        Some(name) => name,
        None => "Failed to fetch their champion.".to_string(),
    }
}

/// Whether a message is answered with a quote: always when the bot is
/// mentioned, else when the number drawn for the message, from 0 to 99,
/// does not exceed the author's rate.
pub fn should_quote(mentioned: bool, drawn: i64, rate: i64) -> (b: bool)
    ensures
        b == (mentioned || drawn <= rate),
{
    mentioned || drawn <= rate
}

/// The name under which a quote is posted: the author's nickname in the
/// guild, or the author's user name where there is none.
pub fn display_name(nick: Option<String>, name: String) -> (shown: String)
    ensures
        shown@ == match nick {
            Some(n) => n@,
            None => name@,
        },
{
    match nick {
        Some(n) => n,
        None => name,
    }
}

/// The first webhook of a channel that can be posted through: the index of
/// the first that has a token.
pub fn first_with_token(has_token: &Vec<bool>) -> (found: Option<usize>)
    ensures
        match found {
            Some(i) => i < has_token@.len() && has_token@[i as int] && forall|k: int|
                0 <= k < i ==> !has_token@[k],
            None => forall|k: int| 0 <= k < has_token@.len() ==> !has_token@[k],
        },
{
    let mut i: usize = 0;
    while i < has_token.len()
        invariant
            i <= has_token.len(),
            forall|k: int| 0 <= k < i ==> !has_token@[k],
        decreases has_token.len() - i,
    {
        if has_token[i] {
            return Some(i);
        }
        i += 1;
    }
    None
}

/// Names found earlier in the roster stand earlier among the completions.
pub proof fn lemma_beginning_with_in_order(
    a: Seq<Seq<char>>,
    b: Seq<Seq<char>>,
    typed: Seq<char>,
)
    ensures
        beginning_with(a + b, typed) == beginning_with(a, typed) + beginning_with(b, typed),
    decreases b.len(),
{
    if b.len() == 0 {
        assert(a + b =~= a);
        assert(beginning_with(a, typed) + beginning_with(b, typed) =~= beginning_with(a, typed));
    } else {
        assert((a + b).drop_last() =~= a + b.drop_last());
        assert((a + b).last() == b.last());
        lemma_beginning_with_in_order(a, b.drop_last(), typed);
        if typed.is_prefix_of(b.last()) {
            assert((beginning_with(a, typed) + beginning_with(b.drop_last(), typed)).push(
                b.last(),
            ) =~= beginning_with(a, typed) + beginning_with(b.drop_last(), typed).push(b.last()));
        }
    }
}

} // verus!
