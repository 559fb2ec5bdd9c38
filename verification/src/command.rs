//! The decisions of the `+unsubscribe` command that precede any request: the
//! message limit and which mode runs.
use vstd::prelude::*;
use crate::error::GwsError;
use crate::text::chars_of;

verus! {

/// A decimal digit.
pub open spec fn is_digit(c: char) -> bool {
    '0' <= c && c <= '9'
}

/// The value of the decimal digits `s`.
pub open spec fn digits_value(s: Seq<char>) -> int
    decreases s.len(),
{
    if s.len() == 0 {
        0
    } else {
        digits_value(s.drop_last()) * 10 + (s.last() as int - '0' as int)
    }
}

/// The digits of `s` after an optional leading `+`.
pub open spec fn unsigned_digits(s: Seq<char>) -> Seq<char> {
    if s.len() > 0 && s[0] == '+' {
        s.drop_first()
    } else {
        s
    }
}

/// What `str::parse::<u32>` gives: an optional `+` followed by one or more
/// decimal digits, whose value fits in a `u32`.
pub open spec fn spec_parse_u32(s: Seq<char>) -> Option<u32> {
    let d = unsigned_digits(s);
    if d.len() > 0 && (forall|i: int| 0 <= i < d.len() ==> is_digit(#[trigger] d[i]))
        && digits_value(d) <= u32::MAX {
        Some(digits_value(d) as u32)
    } else {
        None
    }
}

/// The value of digits never shrinks when more digits follow.
proof fn lemma_digits_value_prefix(d: Seq<char>, k: int)
    requires
        0 <= k <= d.len(),
        forall|i: int| 0 <= i < d.len() ==> is_digit(#[trigger] d[i]),
    ensures
        0 <= digits_value(d.take(k)) <= digits_value(d),
    decreases d.len(),
{
    if k == d.len() {
        assert(d.take(k) =~= d);
        lemma_digits_value_nonneg(d);
    } else {
        let p = d.drop_last();
        assert forall|i: int| 0 <= i < p.len() implies is_digit(#[trigger] p[i]) by {
            assert(p[i] == d[i]);
        }
        lemma_digits_value_prefix(p, k);
        assert(p.take(k) =~= d.take(k));
        assert(is_digit(d[d.len() - 1]));
    }
}

/// The value of digits is never negative.
proof fn lemma_digits_value_nonneg(d: Seq<char>)
    requires
        forall|i: int| 0 <= i < d.len() ==> is_digit(#[trigger] d[i]),
    ensures
        digits_value(d) >= 0,
    decreases d.len(),
{
    if d.len() > 0 {
        let p = d.drop_last();
        assert forall|i: int| 0 <= i < p.len() implies is_digit(#[trigger] p[i]) by {
            assert(p[i] == d[i]);
        }
        lemma_digits_value_nonneg(p);
        assert(is_digit(d[d.len() - 1]));
    }
}

/// Parses `s` as a `u32` the way `str::parse::<u32>` does.
pub fn parse_u32(s: &str) -> (r: Option<u32>)
    ensures
        r == spec_parse_u32(s@),
{
    let v = chars_of(s);
    let start: usize = if v.len() > 0 && v[0] == '+' {
        1
    } else {
        0
    };
    let ghost d = unsigned_digits(s@);
    assert(d =~= v@.skip(start as int));
    if start == v.len() {
        return None;
    }
    let mut acc: u64 = 0;
    let mut i: usize = start;
    assert(d.take(0) =~= Seq::<char>::empty());
    while i < v.len()
        invariant
            v@ == s@,
            d == v@.skip(start as int),
            d == unsigned_digits(s@),
            start <= i <= v@.len(),
            acc as int == digits_value(d.take(i - start)),
            acc <= u32::MAX,
            forall|k: int| 0 <= k < i - start ==> is_digit(#[trigger] d[k]),
        decreases v@.len() - i,
    {
        let c = v[i];
        assert(d[i - start] == c);
        if !('0' <= c && c <= '9') {
            assert(!is_digit(d[i - start]));
            return None;
        }
        let digit = (c as u32 - '0' as u32) as u64;
        assert(d.take(i - start + 1).drop_last() =~= d.take(i - start));
        acc = acc * 10 + digit;
        if acc > u32::MAX as u64 {
            proof {
                if forall|k: int| 0 <= k < d.len() ==> is_digit(#[trigger] d[k]) {
                    lemma_digits_value_prefix(d, i - start + 1);
                }
            }
            return None;
        }
        i = i + 1;
    }
    assert(d.take(d.len() as int) =~= d);
    Some(acc as u32)
}

/// The most messages to scan when none is given or the given value does not
/// parse.
pub open spec fn default_max_messages() -> u32 {
    100
}

/// The message limit from the `--max` argument: its value when it parses as
/// a `u32`, else 100.
pub fn max_messages(arg: Option<&str>) -> (r: u32)
    ensures
        r == match arg {
            Some(s) => match spec_parse_u32(s@) {
                Some(v) => v,
                None => default_max_messages(),
            },
            None => default_max_messages(),
        },
{
    match arg {
        Some(s) => match parse_u32(s) {
            Some(v) => v,
            None => 100,
        },
        None => 100,
    }
}

/// How numbers parse: a leading `+` changes nothing, a minus sign or an empty
/// text is refused, one digit is its value, and one more digit multiplies
/// the value by ten and adds the digit, as long as the result fits.
pub proof fn lemma_parse_u32_laws(d: Seq<char>, c: char, v: u32)
    ensures
        spec_parse_u32(Seq::empty()) is None,
        spec_parse_u32(seq!['+']) is None,
        !(d.len() > 0 && d[0] == '+') ==> spec_parse_u32(seq!['+'] + d) == spec_parse_u32(d),
        spec_parse_u32(seq!['-'] + d) is None,
        '0' <= c <= '9' ==> spec_parse_u32(seq![c]) == Some((c as u32 - '0' as u32) as u32),
        ('0' <= c <= '9' && !(d.len() > 0 && d[0] == '+') && spec_parse_u32(d) == Some(v)
            && v * 10 + (c as int - '0' as int) <= u32::MAX) ==> spec_parse_u32(d.push(c)) == Some(
            (v * 10 + (c as int - '0' as int)) as u32,
        ),
        ('0' <= c <= '9' && !(d.len() > 0 && d[0] == '+') && spec_parse_u32(d) == Some(v)
            && v * 10 + (c as int - '0' as int) > u32::MAX) ==> spec_parse_u32(d.push(c)) is None,
{
    let e = Seq::<char>::empty();
    assert((seq!['+'] + d).drop_first() =~= d);
    assert(seq!['+'].drop_first() =~= e);
    let one = seq![c];
    assert(one.drop_last() =~= e);
    assert(d.push(c).drop_last() =~= d);
    if '0' <= c <= '9' && !(d.len() > 0 && d[0] == '+') && spec_parse_u32(d) == Some(v) {
        assert(unsigned_digits(d) == d);
        assert(d.len() > 0);
        assert(d.push(c)[0] == d[0]);
        assert(unsigned_digits(d.push(c)) == d.push(c));
        lemma_digits_value_nonneg(d);
        assert(digits_value(d) == v as int);
        assert(d.push(c).last() == c);
        assert(digits_value(d.push(c)) == digits_value(d) * 10 + (c as int - '0' as int));
        assert forall|i: int| 0 <= i < d.push(c).len() implies is_digit(#[trigger] d.push(c)[i]) by {
            if i < d.len() {
                assert(d.push(c)[i] == d[i]);
            }
        }
    }
    assert((seq!['-'] + d)[0] == '-');
    assert(!is_digit('-'));
}

/// Whatever `--max` holds that does not parse, the limit is 100.
pub proof fn lemma_default_limit(arg: Option<Seq<char>>)
    ensures
        (match arg {
            Some(s) => match spec_parse_u32(s) {
                Some(v) => v,
                None => default_max_messages(),
            },
            None => default_max_messages(),
        }) == (match arg {
            Some(s) => match spec_parse_u32(s) {
                Some(v) => v,
                None => 100u32,
            },
            None => 100u32,
        }),
{
}

/// Which part of the command runs.
pub enum UnsubscribeMode {
    /// Scan and list the candidate senders.
    List,
    /// Unsubscribe from the senders matching `sender`.
    Unsubscribe { sender: String },
}

/// The error text when neither `--list` nor `--from` is given.
pub open spec fn missing_mode_message() -> Seq<char> {
    "Specify --list to scan for candidates, or --from <sender> to unsubscribe"@
}

/// Listing wins over `--from`; without either the command is refused.
pub fn choose_mode(list_mode: bool, from_filter: Option<&str>) -> (r: Result<
    UnsubscribeMode,
    GwsError,
>)
    ensures
        list_mode ==> r matches Ok(UnsubscribeMode::List),
        !list_mode && from_filter is Some ==> (r matches Ok(UnsubscribeMode::Unsubscribe { sender })
            && sender@ == from_filter->0@),
        !list_mode && from_filter is None ==> (r matches Err(GwsError::Validation(msg)) && msg@
            == missing_mode_message()),
{
    if list_mode {
        Ok(UnsubscribeMode::List)
    } else {
        match from_filter {
            Some(sender) => Ok(UnsubscribeMode::Unsubscribe { sender: String::from_str(sender) }),
            None => Err(
                GwsError::Validation(
                    String::from_str(
                        "Specify --list to scan for candidates, or --from <sender> to unsubscribe",
                    ),
                ),
            ),
        }
    }
}

} // verus!
