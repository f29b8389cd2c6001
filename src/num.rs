use vstd::prelude::*;
use vstd::string::*;

verus! {

pub open spec fn is_digit(c: char) -> bool {
    '0' <= c && c <= '9'
}

pub open spec fn digit_value(c: char) -> int {
    c as int - '0' as int
}

pub open spec fn all_digits(s: Seq<char>) -> bool {
    forall|i: int| 0 <= i < s.len() ==> #[trigger] is_digit(s[i])
}

/// The number that a string of decimal digits writes, most significant first.
pub open spec fn digits_value(s: Seq<char>) -> int
    decreases s.len(),
{
    if s.len() == 0 {
        0
    } else {
        digits_value(s.drop_last()) * 10 + digit_value(s.last())
    }
}

/// The text with one leading `+` removed, if it has one.
pub open spec fn unsigned_body(s: Seq<char>) -> Seq<char> {
    if s.len() > 0 && s[0] == '+' {
        s.drop_first()
    } else {
        s
    }
}

/// `u32` from text as `str::parse` reads it: an optional `+`, then at least one
/// decimal digit, with a value that fits.
pub open spec fn parsed_u32(s: Seq<char>) -> Option<u32> {
    let body = unsigned_body(s);
    if body.len() > 0 && all_digits(body) && digits_value(body) <= u32::MAX {
        Some(digits_value(body) as u32)
    } else {
        None
    }
}

/// `i32` from text as `str::parse` reads it: an optional sign, then at least one
/// decimal digit, with a value that fits.
pub open spec fn parsed_i32(s: Seq<char>) -> Option<i32> {
    if s.len() > 0 && s[0] == '-' {
        let body = s.drop_first();
        if body.len() > 0 && all_digits(body) && digits_value(body) <= 0x8000_0000 {
            Some((-digits_value(body)) as i32)
        } else {
            None
        }
    } else {
        let body = unsigned_body(s);
        if body.len() > 0 && all_digits(body) && digits_value(body) <= i32::MAX {
            Some(digits_value(body) as i32)
        } else {
            None
        }
    }
}

/// The decimal digits of `n`, without leading zeros.
pub open spec fn decimal(n: nat) -> Seq<char>
    decreases n,
{
    if n < 10 {
        seq![('0' as u8 + n as u8) as char]
    } else {
        decimal(n / 10).push(('0' as u8 + (n % 10) as u8) as char)
    }
}

proof fn lemma_digits_value_nonneg(s: Seq<char>)
    requires
        all_digits(s),
    ensures
        digits_value(s) >= 0,
    decreases s.len(),
{
    if s.len() > 0 {
        assert(is_digit(s[s.len() - 1]));
        lemma_digits_value_nonneg(s.drop_last());
    }
}

proof fn lemma_digits_value_prefix(s: Seq<char>, j: int)
    requires
        all_digits(s),
        0 <= j <= s.len(),
    ensures
        digits_value(s.subrange(0, j)) <= digits_value(s),
    decreases s.len() - j,
{
    if j < s.len() {
        let p = s.subrange(0, j + 1);
        assert(p.drop_last() =~= s.subrange(0, j));
        assert(is_digit(s[j]));
        assert(all_digits(s.subrange(0, j))) by {
            assert forall|i: int| 0 <= i < j implies #[trigger] is_digit(s.subrange(0, j)[i]) by {
                assert(is_digit(s[i]));
            }
        }
        lemma_digits_value_nonneg(s.subrange(0, j));
        lemma_digits_value_prefix(s, j + 1);
    } else {
        assert(s.subrange(0, j) =~= s);
    }
}

/// Reads the decimal digits of `s` from index `from` on, where `s` is all digits
/// there; gives `None` when the value exceeds `limit`.
fn digits_up_to(s: &str, from: usize, limit: u64) -> (r: Option<u64>)
    requires
        from < s@.len(),
        limit <= u32::MAX + 1,
    ensures
        ({
            let body = s@.subrange(from as int, s@.len() as int);
            match r {
                Some(v) => all_digits(body) && v == digits_value(body) && v <= limit,
                None => !all_digits(body) || digits_value(body) > limit,
            }
        }),
{
    let n = s.unicode_len();
    let ghost body = s@.subrange(from as int, s@.len() as int);
    let mut acc: u64 = 0;
    let mut i: usize = from;
    while i < n
        invariant
            n == s@.len(),
            from <= i <= n,
            body == s@.subrange(from as int, s@.len() as int),
            limit <= u32::MAX + 1,
            all_digits(body.subrange(0, i - from)),
            acc == digits_value(body.subrange(0, i - from)),
            acc <= limit,
        decreases n - i,
    {
        let c = s.get_char(i);
        let ghost p = body.subrange(0, i - from + 1);
        proof {
            assert(p.drop_last() =~= body.subrange(0, i - from));
            assert(p.last() == c);
        }
        if !('0' <= c && c <= '9') {
            proof {
                assert(!is_digit(body[i - from]));
            }
            return None;
        }
        let d = (c as u32 - '0' as u32) as u64;
        acc = acc * 10 + d;
        proof {
            assert(all_digits(p)) by {
                assert forall|k: int| 0 <= k < p.len() implies #[trigger] is_digit(p[k]) by {
                    if k < p.len() - 1 {
                        assert(p[k] == body.subrange(0, i - from)[k]);
                    }
                }
            }
        }
        if acc > limit {
            proof {
                let q = i - from + 1;
                if all_digits(body) {
                    lemma_digits_value_prefix(body, q);
                }
            }
            return None;
        }
        i = i + 1;
    }
    proof {
        assert(body.subrange(0, n - from) =~= body);
    }
    Some(acc)
}

/// Parses a `u32` as `str::parse` does.
pub fn parse_u32(s: &str) -> (r: Option<u32>)
    ensures
        r == parsed_u32(s@),
{
    let n = s.unicode_len();
    if n == 0 {
        return None;
    }
    let from: usize = if s.get_char(0) == '+' { 1 } else { 0 };
    proof {
        if from == 1 {
            assert(unsigned_body(s@) =~= s@.subrange(1, s@.len() as int));
        } else {
            assert(unsigned_body(s@) =~= s@.subrange(0, s@.len() as int));
        }
    }
    if from >= n {
        return None;
    }
    match digits_up_to(s, from, 0xffff_ffff) {
        Some(v) => Some(v as u32),
        None => None,
    }
}

/// Parses an `i32` as `str::parse` does.
pub fn parse_i32(s: &str) -> (r: Option<i32>)
    ensures
        r == parsed_i32(s@),
{
    let n = s.unicode_len();
    if n == 0 {
        return None;
    }
    let first = s.get_char(0);
    if first == '-' {
        proof {
            assert(s@.drop_first() =~= s@.subrange(1, s@.len() as int));
        }
        if n == 1 {
            return None;
        }
        match digits_up_to(s, 1, 0x8000_0000) {
            Some(v) => Some((0 - v as i64) as i32),
            None => None,
        }
    } else {
        let from: usize = if first == '+' { 1 } else { 0 };
        proof {
            if from == 1 {
                assert(unsigned_body(s@) =~= s@.subrange(1, s@.len() as int));
            } else {
                assert(unsigned_body(s@) =~= s@.subrange(0, s@.len() as int));
            }
        }
        if from >= n {
            return None;
        }
        match digits_up_to(s, from, 0x7fff_ffff) {
            Some(v) => Some(v as i32),
            None => None,
        }
    }
}

fn push_decimal(n: u64, out: &mut Vec<char>)
    ensures
        final(out)@ == old(out)@ + decimal(n as nat),
    decreases n,
{
    if n < 10 {
        out.push(('0' as u8 + n as u8) as char);
    } else {
        push_decimal(n / 10, out);
        out.push(('0' as u8 + (n % 10) as u8) as char);
    }
    proof {
        if n >= 10 {
            assert(old(out)@ + decimal(n as nat) =~= old(out)@ + decimal((n / 10) as nat) + seq![
                ('0' as u8 + (n % 10) as u8) as char]);
        }
    }
}

/// The decimal text of `n`.
pub fn decimal_text(n: u64) -> (r: String)
    ensures
        r@ == decimal(n as nat),
{
    let mut out: Vec<char> = Vec::new();
    push_decimal(n, &mut out);
    assert(out@ =~= decimal(n as nat));
    crate::text::string_from_chars(&out)
}

} // verus!
