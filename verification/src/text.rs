use vstd::prelude::*;

verus! {

/// Character-for-character string equality.
pub fn str_eq(a: &str, b: &str) -> (r: bool)
    ensures
        r == (a@ == b@),
{
    let owned_a: String = a.to_owned();
    let owned_b: String = b.to_owned();
    owned_a == owned_b
}

/// A blank character inside a line: space, tab, or carriage return.
pub open spec fn is_blank(c: char) -> bool {
    c == ' ' || c == '\t' || c == '\r'
}

fn is_blank_exec(c: char) -> (r: bool)
    ensures
        r == is_blank(c),
{
    c == ' ' || c == '\t' || c == '\r'
}

/// Scanning state of the tokenizer: the input left to read, the token
/// being built, and the tokens already finished.
pub open spec fn tokenize_rec(s: Seq<char>, cur: Seq<char>, acc: Seq<Seq<char>>) -> Seq<Seq<char>>
    decreases s.len(),
{
    if s.len() == 0 {
        if cur.len() == 0 {
            acc
        } else {
            acc.push(cur)
        }
    } else if is_blank(s[0]) {
        tokenize_rec(
            s.drop_first(),
            Seq::empty(),
            if cur.len() == 0 {
                acc
            } else {
                acc.push(cur)
            },
        )
    } else {
        tokenize_rec(s.drop_first(), cur.push(s[0]), acc)
    }
}

/// The blank-separated tokens of a line, in order.
pub open spec fn spec_tokens(s: Seq<char>) -> Seq<Seq<char>> {
    tokenize_rec(s, Seq::empty(), Seq::empty())
}

/// Splits a line into its blank-separated tokens.
pub fn split_tokens(line: &str) -> (r: Vec<String>)
    ensures
        r.deep_view() == spec_tokens(line@),
{
    let n = line.unicode_len();
    let mut out: Vec<String> = Vec::new();
    let mut i: usize = 0;
    let mut start: usize = 0;
    let mut in_token: bool = false;
    proof {
        assert(line@.subrange(0, n as int) =~= line@);
        assert(out.deep_view() =~= Seq::<Seq<char>>::empty());
    }
    while i < n
        invariant
            n == line@.len(),
            i <= n,
            in_token ==> start < i,
            tokenize_rec(
                line@.subrange(i as int, n as int),
                if in_token {
                    line@.subrange(start as int, i as int)
                } else {
                    Seq::<char>::empty()
                },
                out.deep_view(),
            ) == spec_tokens(line@),
        decreases n - i,
    {
        let c = line.get_char(i);
        proof {
            let rest = line@.subrange(i as int, n as int);
            assert(rest[0] == line@[i as int]);
            assert(rest.drop_first() =~= line@.subrange(i as int + 1, n as int));
        }
        if is_blank_exec(c) {
            if in_token {
                let token = line.substring_char(start, i).to_owned();
                let ghost before = out.deep_view();
                out.push(token);
                proof {
                    assert(out.deep_view() =~= before.push(
                        line@.subrange(start as int, i as int),
                    ));
                }
                in_token = false;
            }
        } else {
            if !in_token {
                start = i;
                in_token = true;
                proof {
                    assert(Seq::<char>::empty().push(line@[i as int]) =~= line@.subrange(
                        start as int,
                        i as int + 1,
                    ));
                }
            } else {
                proof {
                    assert(line@.subrange(start as int, i as int).push(line@[i as int])
                        =~= line@.subrange(start as int, i as int + 1));
                }
            }
        }
        i += 1;
    }
    proof {
        assert(line@.subrange(n as int, n as int) =~= Seq::<char>::empty());
    }
    if in_token {
        let token = line.substring_char(start, n).to_owned();
        let ghost before = out.deep_view();
        out.push(token);
        proof {
            assert(out.deep_view() =~= before.push(line@.subrange(start as int, n as int)));
        }
    }
    out
}

/// Scanning state of the line splitter: the input left to read, the line
/// being built, and the lines already finished. The text after the last
/// newline always counts as one more line, possibly empty.
pub open spec fn split_lines_rec(
    s: Seq<char>,
    cur: Seq<char>,
    acc: Seq<Seq<char>>,
) -> Seq<Seq<char>>
    decreases s.len(),
{
    if s.len() == 0 {
        acc.push(cur)
    } else if s[0] == '\n' {
        split_lines_rec(s.drop_first(), Seq::empty(), acc.push(cur))
    } else {
        split_lines_rec(s.drop_first(), cur.push(s[0]), acc)
    }
}

/// The newline-separated lines of a text, in order.
pub open spec fn spec_lines(s: Seq<char>) -> Seq<Seq<char>> {
    split_lines_rec(s, Seq::empty(), Seq::empty())
}

/// A text always splits into at least one line.
pub proof fn lemma_spec_lines_nonempty(s: Seq<char>)
    ensures
        spec_lines(s).len() >= 1,
{
    lemma_split_lines_rec_len(s, Seq::empty(), Seq::empty());
}

proof fn lemma_split_lines_rec_len(s: Seq<char>, cur: Seq<char>, acc: Seq<Seq<char>>)
    ensures
        split_lines_rec(s, cur, acc).len() > acc.len(),
    decreases s.len(),
{
    if s.len() != 0 {
        if s[0] == '\n' {
            lemma_split_lines_rec_len(s.drop_first(), Seq::empty(), acc.push(cur));
        } else {
            lemma_split_lines_rec_len(s.drop_first(), cur.push(s[0]), acc);
        }
    }
}

/// Splits a text into its newline-separated lines.
pub fn split_lines(text: &str) -> (r: Vec<String>)
    ensures
        r.deep_view() == spec_lines(text@),
        r.len() >= 1,
{
    let n = text.unicode_len();
    let mut out: Vec<String> = Vec::new();
    let mut i: usize = 0;
    let mut start: usize = 0;
    proof {
        assert(text@.subrange(0, n as int) =~= text@);
        assert(text@.subrange(0, 0) =~= Seq::<char>::empty());
        assert(out.deep_view() =~= Seq::<Seq<char>>::empty());
    }
    while i < n
        invariant
            n == text@.len(),
            start <= i <= n,
            split_lines_rec(
                text@.subrange(i as int, n as int),
                text@.subrange(start as int, i as int),
                out.deep_view(),
            ) == spec_lines(text@),
        decreases n - i,
    {
        let c = text.get_char(i);
        proof {
            let rest = text@.subrange(i as int, n as int);
            assert(rest[0] == text@[i as int]);
            assert(rest.drop_first() =~= text@.subrange(i as int + 1, n as int));
        }
        if c == '\n' {
            let line = text.substring_char(start, i).to_owned();
            let ghost before = out.deep_view();
            out.push(line);
            proof {
                assert(out.deep_view() =~= before.push(text@.subrange(start as int, i as int)));
                assert(text@.subrange(i as int + 1, i as int + 1) =~= Seq::<char>::empty());
            }
            start = i + 1;
        } else {
            proof {
                assert(text@.subrange(start as int, i as int).push(text@[i as int])
                    =~= text@.subrange(start as int, i as int + 1));
            }
        }
        i += 1;
    }
    proof {
        assert(text@.subrange(n as int, n as int) =~= Seq::<char>::empty());
    }
    let line = text.substring_char(start, n).to_owned();
    let ghost before = out.deep_view();
    out.push(line);
    proof {
        assert(out.deep_view() =~= before.push(text@.subrange(start as int, n as int)));
        lemma_spec_lines_nonempty(text@);
    }
    out
}

/// A decimal digit.
pub open spec fn is_digit(c: char) -> bool {
    '0' <= c && c <= '9'
}

/// Every character of the token is a decimal digit.
pub open spec fn all_digits(t: Seq<char>) -> bool {
    forall|k: int| 0 <= k < t.len() ==> is_digit(t[k])
}

/// The value of a token of decimal digits.
pub open spec fn digits_val(t: Seq<char>) -> int
    decreases t.len(),
{
    if t.len() == 0 {
        0
    } else {
        digits_val(t.drop_last()) * 10 + (t.last() as int - '0' as int)
    }
}

proof fn lemma_digits_val_nonneg(t: Seq<char>)
    requires
        all_digits(t),
    ensures
        digits_val(t) >= 0,
    decreases t.len(),
{
    if t.len() > 0 {
        assert(all_digits(t.drop_last()));
        lemma_digits_val_nonneg(t.drop_last());
    }
}

fn parse_digits(t: &str) -> (r: Option<u64>)
    ensures
        r is Some <==> t@.len() > 0 && all_digits(t@) && digits_val(t@) <= u64::MAX,
        (match r {
            Some(v) => v == digits_val(t@),
            None => true,
        }),
{
    let n = t.unicode_len();
    if n == 0 {
        return None;
    }
    let mut i: usize = 0;
    let mut value: u64 = 0;
    let mut overflow: bool = false;
    proof {
        assert(t@.subrange(0, 0) =~= Seq::<char>::empty());
    }
    while i < n
        invariant
            n == t@.len(),
            i <= n,
            all_digits(t@.subrange(0, i as int)),
            !overflow ==> value == digits_val(t@.subrange(0, i as int)),
            overflow ==> digits_val(t@.subrange(0, i as int)) > u64::MAX,
        decreases n - i,
    {
        let c = t.get_char(i);
        let code = c as u32;
        if code < 48 || code > 57 {
            proof {
                assert('0' as int == 48 && '9' as int == 57);
                assert(!is_digit(t@[i as int]));
            }
            return None;
        }
        let digit: u64 = (code - 48) as u64;
        proof {
            let sub = t@.subrange(0, i as int + 1);
            assert(sub.drop_last() =~= t@.subrange(0, i as int));
            assert(sub.last() == t@[i as int]);
            assert(all_digits(sub));
            lemma_digits_val_nonneg(t@.subrange(0, i as int));
        }
        if !overflow {
            if value > (u64::MAX - digit) / 10 {
                overflow = true;
            } else {
                value = value * 10 + digit;
            }
        }
        i += 1;
    }
    proof {
        assert(t@.subrange(0, n as int) =~= t@);
    }
    if overflow {
        None
    } else {
        Some(value)
    }
}

/// The unsigned value a token denotes, after an optional leading plus
/// sign, when the rest is one or more decimal digits.
pub open spec fn spec_unsigned_value(t: Seq<char>) -> Option<int> {
    let body = if t.len() > 0 && t[0] == '+' {
        t.drop_first()
    } else {
        t
    };
    if body.len() > 0 && all_digits(body) {
        Some(digits_val(body))
    } else {
        None
    }
}

/// The signed value a token denotes: an optional leading minus sign
/// negates the digits that follow it.
pub open spec fn spec_signed_value(t: Seq<char>) -> Option<int> {
    if t.len() > 0 && t[0] == '-' {
        let body = t.drop_first();
        if body.len() > 0 && all_digits(body) {
            Some(-digits_val(body))
        } else {
            None
        }
    } else {
        spec_unsigned_value(t)
    }
}

/// The token read as a u32, or 0 when it is not one or does not fit.
pub open spec fn spec_parse_u32_or_zero(t: Seq<char>) -> u32 {
    match spec_unsigned_value(t) {
        Some(v) => if v <= u32::MAX {
            v as u32
        } else {
            0u32
        },
        None => 0u32,
    }
}

/// The token read as a u8, or 0 when it is not one or does not fit.
pub open spec fn spec_parse_u8_or_zero(t: Seq<char>) -> u8 {
    match spec_unsigned_value(t) {
        Some(v) => if v <= u8::MAX {
            v as u8
        } else {
            0u8
        },
        None => 0u8,
    }
}

/// The token read as an i32, or 0 when it is not one or does not fit.
pub open spec fn spec_parse_i32_or_zero(t: Seq<char>) -> i32 {
    match spec_signed_value(t) {
        Some(v) => if i32::MIN <= v <= i32::MAX {
            v as i32
        } else {
            0i32
        },
        None => 0i32,
    }
}

fn parse_unsigned(t: &str) -> (r: Option<u64>)
    ensures
        (match spec_unsigned_value(t@) {
            Some(v) => (r is Some <==> v <= u64::MAX) && (r matches Some(got) ==> got == v),
            None => r is None,
        }),
{
    let n = t.unicode_len();
    let start: usize = if n > 0 && t.get_char(0) == '+' {
        1
    } else {
        0
    };
    let body = t.substring_char(start, n);
    proof {
        if start == 1 {
            assert(body@ =~= t@.drop_first());
        } else {
            assert(body@ =~= t@);
        }
    }
    parse_digits(body)
}

/// Reads the token as a u32; anything unreadable or out of range is 0.
pub fn parse_u32_or_zero(t: &str) -> (r: u32)
    ensures
        r == spec_parse_u32_or_zero(t@),
{
    match parse_unsigned(t) {
        Some(v) => if v <= u32::MAX as u64 {
            v as u32
        } else {
            0
        },
        None => 0,
    }
}

/// Reads the token as a u8; anything unreadable or out of range is 0.
pub fn parse_u8_or_zero(t: &str) -> (r: u8)
    ensures
        r == spec_parse_u8_or_zero(t@),
{
    match parse_unsigned(t) {
        Some(v) => if v <= u8::MAX as u64 {
            v as u8
        } else {
            0
        },
        None => 0,
    }
}

/// Reads the token as an i32; anything unreadable or out of range is 0.
pub fn parse_i32_or_zero(t: &str) -> (r: i32)
    ensures
        r == spec_parse_i32_or_zero(t@),
{
    let n = t.unicode_len();
    if n > 0 && t.get_char(0) == '-' {
        let body = t.substring_char(1, n);
        proof {
            assert(body@ =~= t@.drop_first());
        }
        match parse_digits(body) {
            Some(v) => if v <= 2147483648u64 {
                if v == 2147483648u64 {
                    i32::MIN
                } else {
                    -(v as i32)
                }
            } else {
                0
            },
            None => 0,
        }
    } else {
        match parse_unsigned(t) {
            Some(v) => if v <= i32::MAX as u64 {
                v as i32
            } else {
                0
            },
            None => 0,
        }
    }
}

} // verus!
