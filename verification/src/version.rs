//! Version comparison for the update check: parsing a dotted numeric
//! version string (optional leading `v`, optional `-suffix` cut off
//! before comparison) and deciding whether a remote version is newer
//! than the local one, plus the lenient millisecond parsing the replay
//! settings form uses.

use vstd::prelude::*;

use crate::util::{chars_of, spec_trim, trim_spaces};
use vstd::string::StrSliceExecFns;

verus! {

/// Whether `c` is a decimal digit.
pub open spec fn is_digit_char(c: char) -> bool {
    '0' as int <= c as int <= '9' as int
}

/// The value of a decimal digit.
pub open spec fn digit_val(c: char) -> int {
    c as int - '0' as int
}

/// Whether `s` is one or more decimal digits.
pub open spec fn all_digits(s: Seq<char>) -> bool {
    s.len() > 0 && forall|i: int| 0 <= i < s.len() ==> is_digit_char(s[i])
}

/// The numeric value of a digit string.
pub open spec fn digits_val(s: Seq<char>) -> int
    decreases s.len(),
{
    if s.len() == 0 {
        0
    } else {
        digits_val(s.drop_last()) * 10 + digit_val(s.last())
    }
}

/// What `str::parse::<u64>` accepts of a version component: an
/// optional leading plus sign, then one or more digits, with a value
/// that fits in 64 bits.
pub open spec fn spec_parse_u64(s: Seq<char>) -> Option<u64> {
    let d = if s.len() > 0 && s[0] == '+' {
        s.drop_first()
    } else {
        s
    };
    if all_digits(d) && digits_val(d) <= u64::MAX {
        Some(digits_val(d) as u64)
    } else {
        None
    }
}

/// The prefix of `s` before its first dash, or all of `s`.
pub open spec fn spec_before_dash(s: Seq<char>) -> Seq<char>
    decreases s.len(),
{
    if s.len() == 0 {
        s
    } else if s[0] == '-' {
        Seq::empty()
    } else {
        seq![s[0]] + spec_before_dash(s.drop_first())
    }
}

/// `s` split on dots; always at least one part, empty parts kept.
pub open spec fn spec_split_dots(s: Seq<char>) -> Seq<Seq<char>>
    decreases s.len(),
{
    if s.len() == 0 {
        seq![Seq::<char>::empty()]
    } else if s[0] == '.' {
        seq![Seq::<char>::empty()] + spec_split_dots(s.drop_first())
    } else {
        let r = spec_split_dots(s.drop_first());
        seq![seq![s[0]] + r[0]] + r.drop_first()
    }
}

/// The normalized base of a version string: trimmed, one leading `v`
/// stripped, truncated before the first dash.
pub open spec fn spec_version_base(s: Seq<char>) -> Seq<char> {
    let t = spec_trim(s);
    let t1 = if t.len() > 0 && t[0] == 'v' {
        t.subrange(1, t.len() as int)
    } else {
        t
    };
    spec_before_dash(t1)
}

/// The parsed components of a version string, or nothing when any
/// dot-separated part of the base fails to parse.
pub open spec fn spec_parse_version(s: Seq<char>) -> Option<Seq<u64>> {
    let parts = spec_split_dots(spec_version_base(s));
    if forall|i: int| 0 <= i < parts.len() ==> spec_parse_u64(#[trigger] parts[i]) is Some {
        Some(Seq::new(parts.len(), |i: int| spec_parse_u64(parts[i])->0))
    } else {
        None
    }
}

/// Component-by-component comparison from position `i` on, missing
/// trailing components comparing as 0: the remote side is newer iff
/// some component of it exceeds the local one before an earlier
/// position decides for the local side.
pub open spec fn spec_newer_at(local: Seq<u64>, remote: Seq<u64>, i: int) -> bool
    decreases local.len() + remote.len() - i,
{
    if i >= local.len() && i >= remote.len() {
        false
    } else {
        let a: u64 = if i < local.len() {
            local[i]
        } else {
            0
        };
        let b: u64 = if i < remote.len() {
            remote[i]
        } else {
            0
        };
        if b > a {
            true
        } else if b < a {
            false
        } else {
            spec_newer_at(local, remote, i + 1)
        }
    }
}

/// Whether the remote version string names a newer version than the
/// local one; unparseable versions are never considered newer.
pub open spec fn spec_is_remote_newer(local: Seq<char>, remote: Seq<char>) -> bool {
    match (spec_parse_version(local), spec_parse_version(remote)) {
        (Some(l), Some(r)) => spec_newer_at(l, r, 0),
        _ => false,
    }
}

/// A digit string's value is non-negative.
proof fn lemma_digits_val_nonneg(s: Seq<char>)
    requires
        forall|i: int| 0 <= i < s.len() ==> is_digit_char(s[i]),
    ensures
        digits_val(s) >= 0,
    decreases s.len(),
{
    if s.len() > 0 {
        lemma_digits_val_nonneg(s.drop_last());
    }
}

/// Extending a digit string never shrinks its value.
proof fn lemma_digits_val_grows(s: Seq<char>, i: int)
    requires
        forall|k: int| 0 <= k < s.len() ==> is_digit_char(s[k]),
        0 <= i <= s.len(),
    ensures
        digits_val(s) >= digits_val(s.take(i)),
    decreases s.len() - i,
{
    if i < s.len() {
        lemma_digits_val_grows(s, i + 1);
        assert(s.take(i + 1).drop_last() =~= s.take(i));
        assert(s.take(i + 1).last() == s[i]);
        lemma_digits_val_nonneg(s.take(i));
        assert(is_digit_char(s[i]));
        assert(digits_val(s.take(i + 1)) == digits_val(s.take(i)) * 10 + digit_val(s[i]));
        assert(digits_val(s.take(i + 1)) >= digits_val(s.take(i)));
    } else {
        assert(s.take(i) =~= s);
    }
}

/// A split always yields at least one part.
proof fn lemma_split_nonempty(s: Seq<char>)
    ensures
        spec_split_dots(s).len() >= 1,
    decreases s.len(),
{
    if s.len() == 0 {
    } else if s[0] == '.' {
    } else {
        lemma_split_nonempty(s.drop_first());
    }
}

/// A string without dots is one single part.
proof fn lemma_split_no_dot(s: Seq<char>)
    requires
        forall|i: int| 0 <= i < s.len() ==> s[i] != '.',
    ensures
        spec_split_dots(s) == seq![s],
    decreases s.len(),
{
    if s.len() == 0 {
        assert(spec_split_dots(s) =~~= seq![s]);
    } else {
        lemma_split_no_dot(s.drop_first());
        assert(seq![s[0]] + s.drop_first() =~= s);
        assert(spec_split_dots(s) =~~= seq![s]);
    }
}

/// Splitting at the first dot: the prefix becomes the first part and
/// the suffix is split on its own.
proof fn lemma_split_at_first_dot(s: Seq<char>, d: int)
    requires
        0 <= d < s.len(),
        s[d] == '.',
        forall|i: int| 0 <= i < d ==> s[i] != '.',
    ensures
        spec_split_dots(s) == seq![s.subrange(0, d)] + spec_split_dots(
            s.subrange(d + 1, s.len() as int),
        ),
    decreases d,
{
    if d == 0 {
        assert(s.subrange(0, 0) =~= Seq::<char>::empty());
        assert(s.subrange(1, s.len() as int) =~= s.drop_first());
        assert(spec_split_dots(s) =~= seq![s.subrange(0, 0)] + spec_split_dots(
            s.subrange(1, s.len() as int),
        ));
    } else {
        let t = s.drop_first();
        assert(t[d - 1] == '.');
        assert forall|i: int| 0 <= i < d - 1 implies t[i] != '.' by {
            assert(t[i] == s[i + 1]);
        }
        lemma_split_at_first_dot(t, d - 1);
        let rest = t.subrange(d, t.len() as int);
        assert(rest =~= s.subrange(d + 1, s.len() as int));
        let r = spec_split_dots(t);
        assert(r == seq![t.subrange(0, d - 1)] + spec_split_dots(rest));
        assert(r[0] == t.subrange(0, d - 1));
        assert(seq![s[0]] + t.subrange(0, d - 1) =~= s.subrange(0, d));
        assert(r.drop_first() =~= spec_split_dots(rest));
        assert(spec_split_dots(s) =~= seq![s.subrange(0, d)] + spec_split_dots(rest));
    }
}

/// Consuming one dotted part: when the remaining input has its first
/// dot at `cut`, the prefix before the dot is the next part of the
/// split, and the rest of the split comes from the suffix.
proof fn lemma_consume_part(gparts: Seq<Seq<char>>, done: int, rest: Seq<char>, cut: int)
    requires
        0 <= done <= gparts.len(),
        gparts == gparts.take(done) + spec_split_dots(rest),
        0 <= cut < rest.len(),
        rest[cut] == '.',
        forall|i: int| 0 <= i < cut ==> rest[i] != '.',
    ensures
        done < gparts.len(),
        gparts[done] == rest.subrange(0, cut),
        gparts == gparts.take(done + 1) + spec_split_dots(
            rest.subrange(cut + 1, rest.len() as int),
        ),
{
    lemma_split_at_first_dot(rest, cut);
    lemma_split_nonempty(rest.subrange(cut + 1, rest.len() as int));
    assert(spec_split_dots(rest).len() >= 2);
    assert(gparts.take(done).len() == done);
    assert(gparts[done] == spec_split_dots(rest)[0]);
    assert(gparts.take(done + 1) =~= gparts.take(done) + seq![rest.subrange(0, cut)]);
    assert(gparts =~= gparts.take(done + 1) + spec_split_dots(
        rest.subrange(cut + 1, rest.len() as int),
    ));
}

/// Consuming the last part: when the remaining input has no dot, it is
/// the final part of the split.
proof fn lemma_last_part(gparts: Seq<Seq<char>>, done: int, rest: Seq<char>)
    requires
        0 <= done <= gparts.len(),
        gparts == gparts.take(done) + spec_split_dots(rest),
        forall|i: int| 0 <= i < rest.len() ==> rest[i] != '.',
    ensures
        gparts.len() == done + 1,
        gparts[done] == rest,
{
    lemma_split_no_dot(rest);
    assert(gparts.take(done).len() == done);
    assert(gparts[done] == spec_split_dots(rest)[0]);
}

/// The prefix before the first dash, characterized by position.
proof fn lemma_before_dash_at(s: Seq<char>, d: int)
    requires
        0 <= d <= s.len(),
        forall|i: int| 0 <= i < d ==> s[i] != '-',
        d < s.len() ==> s[d] == '-',
    ensures
        spec_before_dash(s) == s.subrange(0, d),
    decreases s.len(),
{
    if s.len() == 0 {
        assert(spec_before_dash(s) =~= s.subrange(0, 0));
    } else if s[0] == '-' {
        assert(d == 0);
        assert(spec_before_dash(s) =~= s.subrange(0, 0));
    } else {
        assert(d >= 1);
        let t = s.drop_first();
        assert forall|i: int| 0 <= i < d - 1 implies t[i] != '-' by {
            assert(t[i] == s[i + 1]);
        }
        lemma_before_dash_at(t, d - 1);
        assert(seq![s[0]] + t.subrange(0, d - 1) =~= s.subrange(0, d));
    }
}

/// Decides whether `c` is a decimal digit.
fn is_digit(c: char) -> (b: bool)
    ensures
        b == is_digit_char(c),
{
    c >= '0' && c <= '9'
}

/// Parses the characters of `cs` between `from` and `to` the way
/// `str::parse::<u64>` would: an optional plus sign, then digits.
fn parse_u64_range(cs: &Vec<char>, from: usize, to: usize) -> (r: Option<u64>)
    requires
        from <= to <= cs@.len(),
    ensures
        r == spec_parse_u64(cs@.subrange(from as int, to as int)),
{
    let ghost s = cs@.subrange(from as int, to as int);
    let start: usize = if from < to && cs[from] == '+' {
        from + 1
    } else {
        from
    };
    let ghost d = cs@.subrange(start as int, to as int);
    proof {
        if s.len() > 0 && s[0] == '+' {
            assert(d =~= s.drop_first());
        } else {
            assert(d =~= s);
        }
    }
    if start == to {
        proof {
            assert(!all_digits(d));
        }
        return None;
    }
    let mut val: u64 = 0;
    let mut i = start;
    while i < to
        invariant
            from <= start <= i <= to,
            to <= cs@.len(),
            start < to,
            s == cs@.subrange(from as int, to as int),
            d == cs@.subrange(start as int, to as int),
            d == (if s.len() > 0 && s[0] == '+' {
                s.drop_first()
            } else {
                s
            }),
            forall|k: int| start <= k < i ==> is_digit_char(cs@[k]),
            val == digits_val(d.take(i - start)),
            digits_val(d.take(i - start)) <= u64::MAX,
        decreases to - i,
    {
        let c = cs[i];
        if !is_digit(c) {
            proof {
                assert(d[i - start] == cs@[i as int]);
                assert(!all_digits(d));
            }
            return None;
        }
        let digit = (c as u32) - ('0' as u32);
        proof {
            assert(is_digit_char(c));
            assert(digit as int == digit_val(c)) by {
                assert('0' as int <= c as int <= '9' as int);
            }
            assert(0 <= digit < 10);
        }
        if val > (u64::MAX - (digit as u64)) / 10 {
            proof {
                if all_digits(d) {
                    assert(d.take(i - start + 1).drop_last() =~= d.take(i - start));
                    assert(d.take(i - start + 1).last() == d[i - start]);
                    assert(d[i - start] == cs@[i as int]);
                    assert(digits_val(d.take(i - start + 1)) == val * 10 + digit);
                    assert(val * 10 + digit > u64::MAX) by {
                        assert(val > (u64::MAX - digit) / 10);
                    }
                    lemma_digits_val_grows(d, i - start + 1);
                    assert(d.take(d.len() as int) =~= d);
                    assert(digits_val(d) > u64::MAX);
                }
            }
            return None;
        }
        proof {
            assert(d.take(i - start + 1).drop_last() =~= d.take(i - start));
            assert(d.take(i - start + 1).last() == d[i - start]);
            assert(d[i - start] == cs@[i as int]);
        }
        val = val * 10 + (digit as u64);
        i = i + 1;
    }
    proof {
        assert(d.take(i - start) =~= d);
        assert(all_digits(d));
    }
    Some(val)
}

/// Parses a version string into its numeric components: trimmed, one
/// leading `v` stripped, cut before the first dash, split on dots,
/// each part a number. Any part that is no number makes the whole
/// version unparseable.
pub fn parse_version(input: &str) -> (r: Option<Vec<u64>>)
    ensures
        r is Some <==> spec_parse_version(input@) is Some,
        r matches Some(v) ==> spec_parse_version(input@) == Some(v@),
{
    let trimmed = trim_spaces(input);
    let cs = chars_of(trimmed.as_str());
    let n = cs.len();
    let from: usize = if n > 0 && cs[0] == 'v' {
        1
    } else {
        0
    };
    let dash = find_dash(&cs, from);
    proof {
        lemma_version_base_of(input@, cs@, from as int, dash as int);
    }
    let r = parse_components(&cs, from, dash);
    proof {
        let parts = spec_split_dots(spec_version_base(input@));
        match r {
            Some(ref v) => {
                assert(spec_parse_version(input@) == Some(v@));
            },
            None => {
                assert(spec_parse_version(input@) is None);
            },
        }
    }
    r
}

/// The normalized base of a version string, characterized by the
/// positions an implementation finds: given the trimmed characters,
/// whether a leading `v` was stripped, and the position of the first
/// dash, the base is the slice in between.
proof fn lemma_version_base_of(input: Seq<char>, cs: Seq<char>, from: int, dash: int)
    requires
        cs == spec_trim(input),
        from == (if cs.len() > 0 && cs[0] == 'v' {
            1int
        } else {
            0int
        }),
        from <= dash <= cs.len(),
        forall|k: int| from <= k < dash ==> cs[k] != '-',
        dash < cs.len() ==> cs[dash] == '-',
    ensures
        spec_version_base(input) == cs.subrange(from, dash),
{
    let t1 = if cs.len() > 0 && cs[0] == 'v' {
        cs.subrange(1, cs.len() as int)
    } else {
        cs
    };
    assert forall|i: int| 0 <= i < dash - from implies t1[i] != '-' by {
        assert(t1[i] == cs[from + i]);
    }
    if dash < cs.len() {
        assert(t1[dash - from] == cs[dash]);
    }
    lemma_before_dash_at(t1, dash - from);
    assert(t1.subrange(0, dash - from) =~= cs.subrange(from, dash));
}

/// Finds the position of the first dash at or after `from`, or the
/// length when there is none.
fn find_dash(cs: &Vec<char>, from: usize) -> (dash: usize)
    requires
        from <= cs@.len(),
    ensures
        from <= dash <= cs@.len(),
        forall|k: int| from <= k < dash ==> cs@[k] != '-',
        dash < cs@.len() ==> cs@[dash as int] == '-',
{
    let n = cs.len();
    let mut dash = from;
    while dash < n && cs[dash] != '-'
        invariant
            from <= dash <= n,
            n == cs@.len(),
            forall|k: int| from <= k < dash ==> cs@[k] != '-',
        decreases n - dash,
    {
        dash = dash + 1;
    }
    dash
}

/// Splits the characters between `from` and `dash` on dots and parses
/// every part as a number.
fn parse_components(cs: &Vec<char>, from: usize, dash: usize) -> (r: Option<Vec<u64>>)
    requires
        from <= dash <= cs@.len(),
    ensures
        ({
            let parts = spec_split_dots(cs@.subrange(from as int, dash as int));
            match r {
                Some(v) => (forall|k: int|
                    0 <= k < parts.len() ==> spec_parse_u64(#[trigger] parts[k]) is Some) && v@
                    == Seq::new(parts.len(), |k: int| spec_parse_u64(parts[k])->0),
                None => !(forall|k: int|
                    0 <= k < parts.len() ==> spec_parse_u64(#[trigger] parts[k]) is Some),
            }
        }),
{
    let ghost base = cs@.subrange(from as int, dash as int);
    let ghost gparts = spec_split_dots(base);
    let n = cs.len();
    let mut parts: Vec<u64> = Vec::new();
    let mut seg_start = from;
    let mut i = from;
    while i < dash
        invariant
            from <= seg_start <= i <= dash <= n,
            n == cs@.len(),
            base == cs@.subrange(from as int, dash as int),
            gparts == spec_split_dots(base),
            parts@.len() <= gparts.len(),
            forall|k: int| seg_start <= k < i ==> cs@[k] != '.',
            gparts == gparts.take(parts@.len() as int) + spec_split_dots(
                cs@.subrange(seg_start as int, dash as int),
            ),
            forall|k: int|
                0 <= k < parts@.len() ==> spec_parse_u64(#[trigger] gparts[k]) == Some(
                    parts@[k],
                ),
        decreases dash - i,
    {
        if cs[i] == '.' {
            let ghost rest = cs@.subrange(seg_start as int, dash as int);
            let ghost seg = cs@.subrange(seg_start as int, i as int);
            let ghost done = parts@.len() as int;
            proof {
                assert forall|k: int| 0 <= k < i - seg_start implies rest[k] != '.' by {
                    assert(rest[k] == cs@[seg_start + k]);
                }
                assert(rest[i - seg_start] == cs@[i as int]);
                lemma_consume_part(gparts, done, rest, i - seg_start);
                assert(rest.subrange(0, i - seg_start) =~= seg);
                assert(rest.subrange(i - seg_start + 1, rest.len() as int) =~= cs@.subrange(
                    i + 1,
                    dash as int,
                ));
                assert(gparts[done] == seg);
            }
            let parsed = match parse_u64_range(&cs, seg_start, i) {
                Some(v) => v,
                None => {
                    proof {
                        assert(spec_parse_u64(gparts[done]) is None);
                        assert(!(forall|k: int|
                            0 <= k < gparts.len() ==> spec_parse_u64(
                                #[trigger] gparts[k],
                            ) is Some));
                    }
                    return None;
                },
            };
            parts.push(parsed);
            proof {
                assert(gparts == gparts.take(parts@.len() as int) + spec_split_dots(
                    cs@.subrange(i + 1, dash as int),
                ));
            }
            seg_start = i + 1;
        }
        i = i + 1;
    }
    let ghost rest = cs@.subrange(seg_start as int, dash as int);
    let ghost done = parts@.len() as int;
    proof {
        assert forall|k: int| 0 <= k < rest.len() implies rest[k] != '.' by {
            assert(rest[k] == cs@[seg_start + k]);
        }
        lemma_last_part(gparts, done, rest);
    }
    let parsed = match parse_u64_range(&cs, seg_start, dash) {
        Some(v) => v,
        None => {
            proof {
                assert(spec_parse_u64(gparts[done]) is None);
                assert(!(forall|k: int|
                    0 <= k < gparts.len() ==> spec_parse_u64(#[trigger] gparts[k]) is Some));
            }
            return None;
        },
    };
    parts.push(parsed);
    proof {
        assert(gparts.len() == parts@.len());
        assert forall|k: int| 0 <= k < gparts.len() implies spec_parse_u64(
            #[trigger] gparts[k],
        ) is Some by {}
        assert(Seq::new(gparts.len(), |k: int| spec_parse_u64(gparts[k])->0) =~= parts@);
    }
    Some(parts)
}

/// Compares two parsed versions component by component, missing
/// trailing components counting as 0.
fn newer_components(l: &Vec<u64>, r: &Vec<u64>) -> (b: bool)
    ensures
        b == spec_newer_at(l@, r@, 0),
{
    let max_len = if l.len() > r.len() {
        l.len()
    } else {
        r.len()
    };
    for i in 0..max_len
        invariant
            max_len == if l@.len() > r@.len() {
                l@.len()
            } else {
                r@.len()
            },
            spec_newer_at(l@, r@, 0) == spec_newer_at(l@, r@, i as int),
    {
        let a: u64 = if i < l.len() {
            l[i]
        } else {
            0
        };
        let b: u64 = if i < r.len() {
            r[i]
        } else {
            0
        };
        if b > a {
            return true;
        }
        if b < a {
            return false;
        }
    }
    proof {
        assert(!spec_newer_at(l@, r@, max_len as int));
    }
    false
}

/// Decides whether the remote version string names a newer version
/// than the local one. Unparseable versions are never newer; missing
/// trailing components compare as 0; a pre-release suffix is cut off
/// before comparison.
pub fn is_remote_newer(local: &str, remote: &str) -> (b: bool)
    ensures
        b == spec_is_remote_newer(local@, remote@),
{
    let l = match parse_version(local) {
        Some(v) => v,
        None => {
            return false;
        },
    };
    let r = match parse_version(remote) {
        Some(v) => v,
        None => {
            return false;
        },
    };
    newer_components(&l, &r)
}

/// Parses a millisecond field of the replay-settings form, falling
/// back to the given default when the field does not hold a number;
/// an empty or malformed field therefore degrades to the default.
pub fn parse_ms_or(input: &str, default: u64) -> (r: u64)
    ensures
        r == match spec_parse_u64(input@) {
            Some(v) => v,
            None => default,
        },
{
    let cs = chars_of(input);
    let n = cs.len();
    proof {
        assert(cs@.subrange(0, n as int) =~= cs@);
    }
    match parse_u64_range(&cs, 0, n) {
        Some(v) => v,
        None => default,
    }
}

/// Decides whether the user should be told about a remote version: it
/// must be newer than the local one, and the update notice must not
/// have been snoozed today.
pub fn should_notify_update(
    local: &str,
    remote: &str,
    snooze_date: &Option<String>,
    today: &str,
) -> (b: bool)
    ensures
        b == (spec_is_remote_newer(local@, remote@) && match snooze_date {
            Some(d) => d@ != today@,
            None => true,
        }),
{
    let snoozed = match snooze_date {
        Some(d) => crate::util::str_eq(d.as_str(), today),
        None => false,
    };
    if snoozed {
        false
    } else {
        is_remote_newer(local, remote)
    }
}

} // verus!
