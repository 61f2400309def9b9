//! The command line: `<count> <category> <directory>`.
use crate::category::{Category, category_name, is_category_name};
use vstd::prelude::*;

verus! {

pub open spec fn is_decimal_digit(c: char) -> bool {
    '0' <= c && c <= '9'
}

/// The value of a string of decimal digits.
pub open spec fn decimal_value(s: Seq<char>) -> int
    decreases s.len(),
{
    if s.len() == 0 {
        0
    } else {
        10 * decimal_value(s.drop_last()) + (s.last() as int - '0' as int)
    }
}

/// The digits of a count, after an optional leading `+`.
pub open spec fn count_digits(s: Seq<char>) -> Seq<char> {
    if s.len() > 0 && s[0] == '+' {
        s.drop_first()
    } else {
        s
    }
}

/// The value that the text of a count stands for.
pub open spec fn count_value(s: Seq<char>) -> int {
    decimal_value(count_digits(s))
}

/// Whether `s` is a positive decimal integer that fits in `usize`.
pub open spec fn is_count_text(s: Seq<char>) -> bool {
    let d = count_digits(s);
    &&& d.len() > 0
    &&& forall|i: int| 0 <= i < d.len() ==> is_decimal_digit(#[trigger] d[i])
    &&& 1 <= count_value(s) <= usize::MAX
}

/// A longer string of digits is worth at least as much as its prefix.
proof fn lemma_decimal_value_grows(s: Seq<char>, k: int)
    requires
        0 <= k <= s.len(),
        forall|i: int| 0 <= i < s.len() ==> is_decimal_digit(#[trigger] s[i]),
    ensures
        decimal_value(s.subrange(0, k)) <= decimal_value(s),
        0 <= decimal_value(s.subrange(0, k)),
    decreases s.len(),
{
    if s.len() > 0 {
        if k == s.len() {
            assert(s.subrange(0, k) == s);
            lemma_decimal_value_grows(s.drop_last(), 0);
            assert(s.drop_last().subrange(0, 0) == s.subrange(0, 0));
        } else {
            lemma_decimal_value_grows(s.drop_last(), k);
            assert(s.drop_last().subrange(0, k) == s.subrange(0, k));
            lemma_decimal_value_grows(s.drop_last(), s.len() - 1);
            assert(s.drop_last().subrange(0, s.len() - 1) == s.drop_last());
        }
    }
}

/// Reads a count of identifiers: a positive decimal integer, optionally
/// signed with `+`.
pub fn parse_count(s: &str) -> (r: Option<usize>)
    ensures
        r is Some <==> is_count_text(s@),
        r is Some ==> r->0 as int == count_value(s@),
{
    let n = s.unicode_len();
    let mut i: usize = 0;
    if n > 0 && s.get_char(0) == '+' {
        i = 1;
    }
    let ghost d = count_digits(s@);
    let ghost first = i as int;
    assert(d == s@.subrange(first, n as int));
    if i == n {
        return None;
    }
    let mut value: usize = 0;
    while i < n
        invariant
            0 <= first <= 1,
            first <= i <= n,
            n == s@.len(),
            d == s@.subrange(first, n as int),
            d == count_digits(s@),
            forall|j: int| 0 <= j < i - first ==> is_decimal_digit(#[trigger] d[j]),
            value as int == decimal_value(d.subrange(0, i - first)),
        decreases n - i,
    {
        let c = s.get_char(i);
        assert(c == d[i - first]);
        if c < '0' || c > '9' {
            assert(!is_decimal_digit(d[i - first]));
            assert(!(forall|j: int| 0 <= j < d.len() ==> is_decimal_digit(#[trigger] d[j])));
            return None;
        }
        let digit: usize = (c as u32 - '0' as u32) as usize;
        assert(d.subrange(0, i + 1 - first).drop_last() == d.subrange(0, i - first));
        assert(d.subrange(0, i + 1 - first).last() == c);
        assert(digit as int == c as int - '0' as int);
        assert(decimal_value(d.subrange(0, i + 1 - first)) == 10 * value + digit);
        if value > (usize::MAX - digit) / 10 {
            proof {
                assert(10 * value + digit > usize::MAX) by (nonlinear_arith)
                    requires
                        value > (usize::MAX - digit) / 10,
                        digit <= 9,
                ;
                if forall|j: int| 0 <= j < d.len() ==> is_decimal_digit(#[trigger] d[j]) {
                    lemma_decimal_value_grows(d, i + 1 - first);
                }
            }
            return None;
        }
        assert(10 * value + digit <= usize::MAX) by (nonlinear_arith)
            requires
                value <= (usize::MAX - digit) / 10,
                digit <= 9,
        ;
        value = 10 * value + digit;
        i = i + 1;
    }
    assert(d.subrange(0, n - first) == d);
    if value == 0 {
        None
    } else {
        Some(value)
    }
}

/// Why the command line is refused.
#[derive(Clone, Copy, Debug, PartialEq, Eq, Structural)]
pub enum ArgError {
    /// Not exactly three arguments after the program name.
    Usage,
    /// The count is not a positive integer.
    InvalidCount,
    /// The category is not one of the known ones.
    UnknownCategory,
    /// The directory does not exist or is not a directory.
    MissingDirectory,
}

/// A checked command line.
pub struct Invocation {
    pub count: usize,
    pub category: Category,
    pub directory: String,
}

/// Checks the command line `args` (program name first). `directory_exists`
/// tells whether the third argument names an existing directory.
pub fn validate_args(args: &Vec<String>, directory_exists: bool) -> (r: Result<
    Invocation,
    ArgError,
>)
    ensures
        args.len() != 4 ==> r == Err::<Invocation, ArgError>(ArgError::Usage),
        args.len() == 4 && !is_count_text(args[1]@) ==> r == Err::<Invocation, ArgError>(
            ArgError::InvalidCount,
        ),
        args.len() == 4 && is_count_text(args[1]@) && !is_category_name(args[2]@) ==> r == Err::<
            Invocation,
            ArgError,
        >(ArgError::UnknownCategory),
        args.len() == 4 && is_count_text(args[1]@) && is_category_name(args[2]@)
            && !directory_exists ==> r == Err::<Invocation, ArgError>(ArgError::MissingDirectory),
        r is Ok <==> args.len() == 4 && is_count_text(args[1]@) && is_category_name(args[2]@)
            && directory_exists,
        r is Ok ==> r->Ok_0.count as int == count_value(args[1]@) && category_name(
            r->Ok_0.category,
        ) == args[2]@ && r->Ok_0.directory@ == args[3]@,
{
    if args.len() != 4 {
        return Err(ArgError::Usage);
    }
    let count = match parse_count(args[1].as_str()) {
        Some(n) => n,
        None => {
            return Err(ArgError::InvalidCount);
        },
    };
    let category = match Category::from_name(args[2].as_str()) {
        Some(c) => c,
        None => {
            return Err(ArgError::UnknownCategory);
        },
    };
    if !directory_exists {
        return Err(ArgError::MissingDirectory);
    }
    Ok(Invocation { count, category, directory: args[3].clone() })
}

} // verus!
