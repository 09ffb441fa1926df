//! The task record and its revision token.
use vstd::prelude::*;
use crate::text::{decimal, decimal_value, digit_value, is_digit, lemma_decimal_round_trip, push_decimal};

verus! {

/// One task. `rev` is `"<counter>-<suffix>"`; `updated_at` (milliseconds
/// since the epoch) is the logical clock that settles conflicts; a deleted
/// task stays stored as a tombstone.
#[derive(Clone, Debug)]
pub struct Task {
    pub id: String,
    pub rev: Option<String>,
    pub title: String,
    pub description: Option<String>,
    pub completed: bool,
    pub due_date: Option<String>,
    pub updated_at: i64,
    pub order: i32,
    pub deleted: bool,
}

pub fn copy_text(s: &Option<String>) -> (r: Option<String>)
    ensures
        r == *s,
{
    match s {
        Some(t) => Some(t.clone()),
        None => None,
    }
}

impl Task {
    /// A field-for-field copy.
    pub fn duplicate(&self) -> (r: Task)
        ensures
            r == *self,
    {
        Task {
            id: self.id.clone(),
            rev: copy_text(&self.rev),
            title: self.title.clone(),
            description: copy_text(&self.description),
            completed: self.completed,
            due_date: copy_text(&self.due_date),
            updated_at: self.updated_at,
            order: self.order,
            deleted: self.deleted,
        }
    }
}

/// The largest revision counter that is read back as a number.
pub const MAX_REV_COUNTER: u64 = 18446744073709551614;

/// Length of the part of `s` before its first `'-'`.
pub open spec fn lead_len(s: Seq<char>) -> nat
    decreases s.len(),
{
    if s.len() == 0 || s[0] == '-' {
        0
    } else {
        1 + lead_len(s.drop_first())
    }
}

/// The counter of a revision token: the number before the first `'-'`, or 0
/// where that part is empty, holds a non-digit, or exceeds `MAX_REV_COUNTER`.
pub open spec fn rev_counter(rev: Option<Seq<char>>) -> nat {
    match rev {
        None => 0,
        Some(s) => {
            let p = s.take(lead_len(s) as int);
            if p.len() > 0 && (forall|k: int| 0 <= k < p.len() ==> is_digit(#[trigger] p[k]))
                && decimal_value(p) <= MAX_REV_COUNTER {
                decimal_value(p)
            } else {
                0
            }
        },
    }
}

pub open spec fn opt_view(s: Option<String>) -> Option<Seq<char>> {
    match s {
        Some(t) => Some(t@),
        None => None,
    }
}

/// A revision suffix as freshly drawn: 32 lowercase hexadecimal digits.
pub open spec fn is_fresh_suffix(s: Seq<char>) -> bool {
    &&& s.len() == 32
    &&& forall|k: int| 0 <= k < s.len() ==> ('0' <= #[trigger] s[k] <= '9' || 'a' <= s[k] <= 'f')
}

/// The revision token `"<counter>-<suffix>"`.
pub open spec fn rev_text(counter: nat, suffix: Seq<char>) -> Seq<char> {
    decimal(counter) + seq!['-'] + suffix
}

proof fn lemma_lead_len(s: Seq<char>, i: int)
    requires
        0 <= i <= s.len(),
        forall|k: int| 0 <= k < i ==> s[k] != '-',
        i == s.len() || s[i] == '-',
    ensures
        lead_len(s) == i,
    decreases i,
{
    if i > 0 {
        lemma_lead_len(s.drop_first(), i - 1);
    }
}

/// A token written by `make_rev` reads back as the counter it was made from.
pub proof fn lemma_rev_counter_of_text(counter: nat, suffix: Seq<char>)
    requires
        counter <= MAX_REV_COUNTER,
    ensures
        rev_counter(Some(rev_text(counter, suffix))) == counter,
{
    lemma_decimal_round_trip(counter);
    let d = decimal(counter);
    let s = rev_text(counter, suffix);
    assert forall|k: int| 0 <= k < d.len() implies s[k] != '-' by {
        assert(s[k] == d[k]);
        assert(is_digit(d[k]));
    }
    lemma_lead_len(s, d.len() as int);
    assert(s.take(d.len() as int) =~= d);
}

/// Reads the counter of a revision token.
pub fn parse_rev_counter(rev: &Option<String>) -> (r: u64)
    ensures
        r == rev_counter(opt_view(*rev)),
{
    match rev {
        None => {
            assert(opt_view(*rev) == None::<Seq<char>>);
            assert(rev_counter(None) == 0);
            0
        },
        Some(t) => {
            let s: &str = t.as_str();
            let n = s.unicode_len();
            let mut i: usize = 0;
            let mut value: u64 = 0;
            let mut digits_only = true;
            let mut fits = true;
            while i < n && s.get_char(i) != '-'
                invariant
                    n == s@.len(),
                    s@ == t@,
                    i <= n,
                    forall|k: int| 0 <= k < i ==> s@[k] != '-',
                    digits_only == (forall|k: int| 0 <= k < i ==> is_digit(#[trigger] s@[k])),
                    digits_only && fits ==> value == decimal_value(s@.take(i as int)),
                    digits_only && fits ==> value <= MAX_REV_COUNTER,
                    digits_only && !fits ==> decimal_value(s@.take(i as int)) > MAX_REV_COUNTER,
                decreases n - i,
            {
                let c = s.get_char(i);
                proof {
                    assert(s@.take(i + 1).drop_last() =~= s@.take(i as int));
                    assert(s@.take(i + 1).last() == c);
                }
                if '0' <= c && c <= '9' {
                    if fits {
                        let d = (c as u64) - ('0' as u64);
                        if value <= (MAX_REV_COUNTER - d) / 10 {
                            value = value * 10 + d;
                        } else {
                            fits = false;
                        }
                    }
                } else {
                    digits_only = false;
                }
                i = i + 1;
            }
            proof {
                lemma_lead_len(s@, i as int);
                let p = s@.take(i as int);
                assert forall|k: int| 0 <= k < i implies p[k] == s@[k] by {}
                if !digits_only {
                    let k = choose|k: int| 0 <= k < i && !is_digit(#[trigger] s@[k]);
                    assert(!is_digit(p[k]));
                }
            }
            if i > 0 && digits_only && fits {
                value
            } else {
                0
            }
        },
    }
}

/// Builds the revision token `"<counter>-<suffix>"`.
pub fn make_rev(counter: u64, suffix: &str) -> (r: String)
    ensures
        r@ == rev_text(counter as nat, suffix@),
{
    let mut out = String::new();
    push_decimal(&mut out, counter);
    proof { reveal_strlit("-"); }
    out.append("-");
    out.append(suffix);
    assert(out@ =~= rev_text(counter as nat, suffix@));
    out
}

} // verus!
