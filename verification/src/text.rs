//! Building strings: joining with a separator, decimal numbers, padding.
use vstd::prelude::*;
use vstd::string::*;

verus! {

/// `parts` written one after another with `sep` between two neighbours.
pub open spec fn joined(parts: Seq<Seq<char>>, sep: Seq<char>) -> Seq<char>
    decreases parts.len(),
{
    if parts.len() == 0 {
        Seq::empty()
    } else if parts.len() == 1 {
        parts[0]
    } else {
        joined(parts.drop_last(), sep) + sep + parts.last()
    }
}

/// A join ends with its last part, and holds a separator when it has two
/// parts or more.
pub proof fn lemma_joined_len(parts: Seq<Seq<char>>, sep: Seq<char>)
    requires
        parts.len() > 0,
    ensures
        joined(parts, sep).len() >= parts.last().len(),
        parts.len() > 1 ==> joined(parts, sep).len() >= sep.len(),
{
}

/// The total length of `parts`.
pub open spec fn total_len(parts: Seq<Seq<char>>) -> int
    decreases parts.len(),
{
    if parts.len() == 0 {
        0
    } else {
        total_len(parts.drop_last()) + parts.last().len()
    }
}

/// A join is as long as its parts together and one separator between each
/// two neighbours.
pub proof fn lemma_joined_length(parts: Seq<Seq<char>>, sep: Seq<char>)
    requires
        parts.len() > 0,
    ensures
        joined(parts, sep).len() == total_len(parts) + (parts.len() - 1) * sep.len(),
    decreases parts.len(),
{
    if parts.len() > 1 {
        let rest = parts.drop_last();
        lemma_joined_length(rest, sep);
        let k: int = parts.len() - 1;
        assert(rest.len() == k);
        assert(joined(parts, sep) == joined(rest, sep) + sep + parts.last());
        assert(total_len(parts) == total_len(rest) + parts.last().len());
        assert((k - 1) * sep.len() + sep.len() == k * sep.len()) by (nonlinear_arith);
    } else {
        assert(parts.drop_last() =~= Seq::<Seq<char>>::empty());
        assert(total_len(parts.drop_last()) == 0);
        assert(0 * sep.len() == 0);
    }
}

/// Part `i` of a join stands, unchanged, after the parts before it and one
/// separator after each of them; a separator follows every part but the last.
pub proof fn lemma_joined_part_at(parts: Seq<Seq<char>>, sep: Seq<char>, i: int)
    requires
        0 <= i < parts.len(),
    ensures
        ({
            let start = total_len(parts.take(i)) + i * sep.len();
            let end = start + parts[i].len();
            &&& 0 <= start <= end <= joined(parts, sep).len()
            &&& joined(parts, sep).subrange(start, end) == parts[i]
            &&& i + 1 < parts.len() ==> end + sep.len() <= joined(parts, sep).len()
                && joined(parts, sep).subrange(end, end + sep.len()) == sep
        }),
    decreases parts.len(),
{
    let n = parts.len();
    let whole = joined(parts, sep);
    let start = total_len(parts.take(i)) + i * sep.len();
    let end = start + parts[i].len();
    assert(0 <= i * sep.len()) by (nonlinear_arith)
        requires
            0 <= i,
    ;
    lemma_total_len_nonnegative(parts.take(i));
    if n == 1 {
        assert(parts.take(0) =~= Seq::<Seq<char>>::empty());
        assert(whole == parts[0]);
        assert(whole.subrange(0, parts[0].len() as int) =~= parts[0]);
    } else {
        let rest = parts.drop_last();
        let head = joined(rest, sep);
        assert(whole == head + sep + parts.last());
        lemma_joined_length(rest, sep);
        if i < n - 1 {
            lemma_joined_part_at(rest, sep, i);
            assert(rest.take(i) =~= parts.take(i));
            assert(rest[i] == parts[i]);
            assert(whole.subrange(start, end) =~= head.subrange(start, end));
            if i + 1 < n - 1 {
                assert(whole.subrange(end, end + sep.len()) =~= head.subrange(end, end + sep.len()));
            } else {
                assert(rest.take(n - 1) =~= rest);
                assert(i == n - 2);
                assert(total_len(rest) == total_len(rest.take(i)) + rest[i].len()) by {
                    assert(rest.take(i + 1).drop_last() =~= rest.take(i));
                }
                assert((n - 2) * sep.len() == (n - 1 - 1) * sep.len());
                assert(end == head.len());
                assert(whole.subrange(end, end + sep.len()) =~= sep);
            }
        } else {
            assert(parts.take(i) =~= rest);
            assert(start == head.len() + sep.len()) by {
                assert((n - 2) * sep.len() + sep.len() == (n - 1) * sep.len()) by (nonlinear_arith);
            }
            assert(whole.subrange(start, end) =~= parts.last());
        }
    }
}

/// A total length is never negative.
proof fn lemma_total_len_nonnegative(parts: Seq<Seq<char>>)
    ensures
        total_len(parts) >= 0,
    decreases parts.len(),
{
    if parts.len() > 0 {
        lemma_total_len_nonnegative(parts.drop_last());
    }
}

/// The texts held by a sequence of strings.
pub open spec fn texts(strings: Seq<String>) -> Seq<Seq<char>> {
    strings.map_values(|s: String| s@)
}

/// The decimal digit `d` (below 10) as a character.
pub open spec fn digit_char(d: nat) -> char {
    "0123456789"@[d as int]
}

/// The decimal notation of `n`, without leading zeros.
pub open spec fn decimal(n: nat) -> Seq<char>
    decreases n,
{
    if n < 10 {
        seq![digit_char(n)]
    } else {
        decimal(n / 10) + seq![digit_char(n % 10)]
    }
}

/// The number that a string of decimal digits denotes, most significant first.
pub open spec fn digits_value(digits: Seq<char>) -> int
    decreases digits.len(),
{
    if digits.len() == 0 {
        0
    } else {
        digits_value(digits.drop_last()) * 10 + (digits.last() as int - '0' as int)
    }
}

/// The digit character of `d` is `'0'` moved up by `d`.
pub proof fn lemma_digit_char(d: nat)
    requires
        d < 10,
    ensures
        digit_char(d) as int == '0' as int + d,
{
    reveal_strlit("0123456789");
    assert("0123456789"@ =~= seq!['0', '1', '2', '3', '4', '5', '6', '7', '8', '9']);
}

/// The decimal notation of `n` is a non-empty run of digits, without a
/// leading zero unless `n` is zero, that denotes `n`.
pub proof fn lemma_decimal_denotes(n: nat)
    ensures
        decimal(n).len() > 0,
        forall|i: int| 0 <= i < decimal(n).len() ==> '0' <= #[trigger] decimal(n)[i] <= '9',
        decimal(n)[0] != '0' || n == 0,
        digits_value(decimal(n)) == n,
    decreases n,
{
    if n < 10 {
        lemma_digit_char(n);
        let d = decimal(n);
        assert(d.drop_last() =~= Seq::<char>::empty());
        assert(digits_value(d.drop_last()) == 0);
        assert(digits_value(d) == digits_value(d.drop_last()) * 10 + (d.last() as int - '0' as int));
    } else {
        lemma_decimal_denotes(n / 10);
        lemma_digit_char(n % 10);
        let d = decimal(n);
        assert(d.drop_last() =~= decimal(n / 10));
        assert(d.last() == digit_char(n % 10));
        assert(d[0] == decimal(n / 10)[0]);
        assert(digits_value(d) == digits_value(d.drop_last()) * 10 + (d.last() as int - '0' as int));
        assert(n == (n / 10) * 10 + n % 10);
        assert forall|i: int| 0 <= i < d.len() implies '0' <= #[trigger] d[i] <= '9' by {
            if i < d.len() - 1 {
                assert(d[i] == decimal(n / 10)[i]);
            }
        }
    }
}

/// Different numbers have different decimal notations.
pub proof fn lemma_decimal_injective(a: nat, b: nat)
    requires
        decimal(a) == decimal(b),
    ensures
        a == b,
{
    lemma_decimal_denotes(a);
    lemma_decimal_denotes(b);
}

/// `n` spaces.
pub open spec fn spaces(n: nat) -> Seq<char> {
    Seq::new(n, |i: int| ' ')
}

/// `n` spaces are `n` characters, each of them a space.
pub proof fn lemma_spaces(n: nat)
    ensures
        spaces(n).len() == n,
        forall|i: int| 0 <= i < n ==> #[trigger] spaces(n)[i] == ' ',
{
}

/// Joins `parts`, with `sep` between two neighbours.
pub fn join_strings(parts: &Vec<String>, sep: &str) -> (r: String)
    ensures
        r@ == joined(texts(parts@), sep@),
{
    let mut out = String::new();
    let n = parts.len();
    let mut i: usize = 0;
    while i < n
        invariant
            n == parts@.len(),
            i <= n,
            out@ == joined(texts(parts@).take(i as int), sep@),
        decreases n - i,
    {
        let ghost all = texts(parts@);
        proof {
            assert(all.take(i + 1).drop_last() =~= all.take(i as int));
            assert(all.take(i + 1).last() == parts@[i as int]@);
            if i == 0 {
                assert(all.take(1) =~= seq![parts@[0]@]);
            }
        }
        if i > 0 {
            out.append(sep);
        }
        out.append(parts[i].as_str());
        i = i + 1;
    }
    proof {
        assert(texts(parts@).take(n as int) =~= texts(parts@));
    }
    out
}

/// The one-character string holding `c`.
///
/// Calls std's `From<char> for String`, documented as allocating an owned
/// string from a single character; that is what the contract states.
#[verifier::external_body]
pub fn char_text(c: char) -> (r: String)
    ensures
        r@ == seq![c],
{
    String::from(c)
}

/// The decimal notation of `n`.
pub fn decimal_text(n: u64) -> (r: String)
    ensures
        r@ == decimal(n as nat),
    decreases n,
{
    let digits = "0123456789";
    proof {
        reveal_strlit("0123456789");
    }
    let last = (n % 10) as usize;
    let digit = digits.substring_char(last, last + 1);
    if n < 10 {
        let r = String::from_str(digit);
        proof {
            assert(digit@ =~= seq![digit_char(n as nat)]);
        }
        r
    } else {
        let mut r = decimal_text(n / 10);
        r.append(digit);
        proof {
            assert(digit@ =~= seq![digit_char(n as nat % 10)]);
        }
        r
    }
}

/// `n` spaces followed by `text`.
pub fn pad_left(n: usize, text: &str) -> (r: String)
    ensures
        r@ == spaces(n as nat) + text@,
{
    let mut out = String::new();
    let mut i: usize = 0;
    while i < n
        invariant
            i <= n,
            out@ == spaces(i as nat),
        decreases n - i,
    {
        out.append(" ");
        proof {
            reveal_strlit(" ");
            assert(spaces(i as nat) + " "@ =~= spaces((i + 1) as nat));
        }
        i = i + 1;
    }
    out.append(text);
    out
}

} // verus!
