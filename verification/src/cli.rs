//! Pure argument-vector helpers: combinable short flags and the lyric
//! offset option. Reading the argument vector and the configuration
//! fallback are the surrounding program's concern.
use vstd::prelude::*;
use crate::text::{parse_i64_arg_spec, parse_i64_range, parse_u64_range, str_eq, str_to_chars};

verus! {

/// Whether one argument sets the flag: it is the long form, or a short
/// cluster (one dash, not two) containing the flag's letter.
pub open spec fn flag_matches(a: Seq<char>, short: char, long: Seq<char>) -> bool {
    ||| a == long
    ||| (a.len() >= 1 && a[0] == '-' && !(a.len() >= 2 && a[1] == '-') && a.skip(1).contains(
        short,
    ))
}

/// Whether any argument sets the flag.
pub open spec fn has_flag_spec(args: Seq<Seq<char>>, short: char, long: Seq<char>) -> bool {
    exists|i: int| 0 <= i < args.len() && flag_matches(#[trigger] args[i], short, long)
}

fn arg_matches(a: &str, short: char, long: &str) -> (r: bool)
    ensures
        r == flag_matches(a@, short, long@),
{
    if str_eq(a, long) {
        return true;
    }
    let cs = str_to_chars(a);
    let n = cs.len();
    if n == 0 || cs[0] != '-' {
        return false;
    }
    if n >= 2 && cs[1] == '-' {
        return false;
    }
    let mut i: usize = 1;
    while i < n
        invariant
            1 <= i <= n == cs@.len(),
            cs@ == a@,
            a@[0] == '-',
            !(a@.len() >= 2 && a@[1] == '-'),
            forall|j: int| 1 <= j < i ==> a@[j] != short,
        decreases n - i,
    {
        if cs[i] == short {
            proof {
                assert(a@.skip(1)[i - 1] == short);
            }
            return true;
        }
        i = i + 1;
    }
    proof {
        assert forall|j: int| 0 <= j < a@.skip(1).len() implies a@.skip(1)[j] != short by {
            assert(a@.skip(1)[j] == a@[j + 1]);
        }
    }
    false
}

/// Whether the argument vector sets a flag, by its long form or by its
/// letter inside a combined short cluster.
pub fn has(args: &Vec<String>, short: char, long: &str) -> (r: bool)
    ensures
        r == has_flag_spec(args.deep_view(), short, long@),
{
    let ghost dv = args.deep_view();
    let mut i: usize = 0;
    while i < args.len()
        invariant
            i <= args@.len() == dv.len(),
            dv == args.deep_view(),
            forall|j: int| 0 <= j < i ==> !flag_matches(#[trigger] dv[j], short, long@),
        decreases args@.len() - i,
    {
        if arg_matches(args[i].as_str(), short, long) {
            proof {
                assert(dv[i as int] == args@[i as int]@);
            }
            return true;
        }
        proof {
            assert(dv[i as int] == args@[i as int]@);
        }
        i = i + 1;
    }
    false
}

/// The position of the first argument equal to one of the two option
/// names.
pub open spec fn option_position(args: Seq<Seq<char>>, n1: Seq<char>, n2: Seq<char>, from: int) -> Option<int>
    decreases args.len() - from,
{
    if from < 0 || from >= args.len() {
        None
    } else if args[from] == n1 || args[from] == n2 {
        Some(from)
    } else {
        option_position(args, n1, n2, from + 1)
    }
}

/// The lyric offset named on the command line: the value after the first
/// `--offset` or `-o`, when there is one and it reads as a number (an
/// optional leading sign, then digits).
pub open spec fn offset_arg_spec(args: Seq<Seq<char>>) -> Option<i64> {
    match option_position(args, "--offset"@, "-o"@, 0) {
        None => None,
        Some(i) => if i + 1 < args.len() {
            parse_i64_arg_spec(args[i + 1])
        } else {
            None
        },
    }
}

/// Reads the lyric offset option from the argument vector; the caller
/// falls back to the configured value when it is absent or malformed.
pub fn offset_arg(args: &Vec<String>) -> (r: Option<i64>)
    ensures
        r == offset_arg_spec(args.deep_view()),
{
    proof {
        reveal_strlit("--offset");
        reveal_strlit("-o");
    }
    let ghost dv = args.deep_view();
    let mut i: usize = 0;
    while i < args.len()
        invariant
            i <= args@.len() == dv.len(),
            dv == args.deep_view(),
            option_position(dv, "--offset"@, "-o"@, 0) == option_position(
                dv,
                "--offset"@,
                "-o"@,
                i as int,
            ),
        decreases args@.len() - i,
    {
        proof {
            assert(dv[i as int] == args@[i as int]@);
        }
        if str_eq(args[i].as_str(), "--offset") || str_eq(args[i].as_str(), "-o") {
            if i + 1 < args.len() {
                proof {
                    assert(dv[i + 1] == args@[i + 1]@);
                }
                let cs = str_to_chars(args[i + 1].as_str());
                let n = cs.len();
                proof {
                    assert(cs@.subrange(0, n as int) =~= cs@);
                }
                if n > 0 && cs[0] == '+' {
                    proof {
                        assert(cs@.subrange(1, n as int) =~= cs@.subrange(1, cs@.len() as int));
                    }
                    return match parse_u64_range(cs.as_slice(), 1, n) {
                        Some(v) => if v <= 9223372036854775807u64 {
                            Some(v as i64)
                        } else {
                            None
                        },
                        None => None,
                    };
                }
                return parse_i64_range(cs.as_slice(), 0, n);
            } else {
                return None;
            }
        }
        i = i + 1;
    }
    None
}

} // verus!
