//! Command-level decisions: which server a removal talks to and with whose
//! credentials, the URL it posts to, and how the server command resolves
//! its bind address — with the integer/text conversions they need.
use crate::config::{BldConfig, BldRemoteConfig, BldServerConfig};
use crate::errors::RunError;
use vstd::prelude::*;
use vstd::string::*;

verus! {

/// The decimal digit characters in order.
pub open spec fn spec_digit_char(d: int) -> char {
    if d == 0 {
        '0'
    } else if d == 1 {
        '1'
    } else if d == 2 {
        '2'
    } else if d == 3 {
        '3'
    } else if d == 4 {
        '4'
    } else if d == 5 {
        '5'
    } else if d == 6 {
        '6'
    } else if d == 7 {
        '7'
    } else if d == 8 {
        '8'
    } else {
        '9'
    }
}

/// The decimal text of a nonnegative integer, no leading zeros.
pub open spec fn spec_digits(n: int) -> Seq<char>
    decreases n,
{
    if n < 10 {
        seq![spec_digit_char(n)]
    } else {
        spec_digits(n / 10) + seq![spec_digit_char(n % 10)]
    }
}

/// The decimal text of an integer: a minus sign for negatives.
pub open spec fn spec_int_text(n: int) -> Seq<char> {
    if n >= 0 {
        spec_digits(n)
    } else {
        seq!['-'] + spec_digits(-n)
    }
}

/// One decimal digit as text.
fn digit_str(d: u64) -> (r: &'static str)
    requires
        d < 10,
    ensures
        r@ == seq![spec_digit_char(d as int)],
{
    proof {
        reveal_strlit("0");
        reveal_strlit("1");
        reveal_strlit("2");
        reveal_strlit("3");
        reveal_strlit("4");
        reveal_strlit("5");
        reveal_strlit("6");
        reveal_strlit("7");
        reveal_strlit("8");
        reveal_strlit("9");
    }
    let r = if d == 0 {
        "0"
    } else if d == 1 {
        "1"
    } else if d == 2 {
        "2"
    } else if d == 3 {
        "3"
    } else if d == 4 {
        "4"
    } else if d == 5 {
        "5"
    } else if d == 6 {
        "6"
    } else if d == 7 {
        "7"
    } else if d == 8 {
        "8"
    } else {
        "9"
    };
    proof {
        assert(r@ =~= seq![spec_digit_char(d as int)]);
    }
    r
}

/// The decimal text of an unsigned integer.
pub fn u64_text(n: u64) -> (r: String)
    ensures
        r@ == spec_digits(n as int),
    decreases n,
{
    if n < 10 {
        String::from_str(digit_str(n))
    } else {
        let high = u64_text(n / 10);
        high.concat(digit_str(n % 10))
    }
}

/// The decimal text of a signed integer.
pub fn i64_text(n: i64) -> (r: String)
    ensures
        r@ == spec_int_text(n as int),
{
    if n >= 0 {
        u64_text(n as u64)
    } else {
        // magnitude without overflowing i64::MIN
        let m: u64 = ((-(n + 1)) as u64) + 1;
        proof {
            assert(m == -(n as int));
        }
        let r = String::from_str("-");
        proof {
            reveal_strlit("-");
            assert(r@ =~= seq!['-']);
        }
        r.concat(u64_text(m).as_str())
    }
}

/// The value of a digit character, meaningful only for `'0'..='9'`.
pub open spec fn spec_digit_val(c: char) -> int {
    c as int - '0' as int
}

/// Whether every character is a decimal digit.
pub open spec fn spec_all_digits(s: Seq<char>) -> bool {
    forall|i: int| 0 <= i < s.len() ==> '0' <= #[trigger] s[i] <= '9'
}

/// The value of a digit string.
pub open spec fn spec_digits_val(s: Seq<char>) -> int
    decreases s.len(),
{
    if s.len() == 0 {
        0
    } else {
        spec_digits_val(s.drop_last()) * 10 + spec_digit_val(s.last())
    }
}

/// Whether a string is a well-formed decimal `i64`: an optional minus
/// sign, then at least one digit, with the value in range.
pub open spec fn spec_valid_i64(s: Seq<char>) -> bool {
    if s.len() > 0 && s[0] == '-' {
        spec_all_digits(s.skip(1)) && s.len() > 1 && spec_digits_val(s.skip(1))
            <= 0x8000000000000000
    } else {
        spec_all_digits(s) && s.len() > 0 && spec_digits_val(s) <= 0x7fffffffffffffff
    }
}

/// The value of a well-formed decimal `i64` string.
pub open spec fn spec_i64_val(s: Seq<char>) -> int {
    if s.len() > 0 && s[0] == '-' {
        -spec_digits_val(s.skip(1))
    } else {
        spec_digits_val(s)
    }
}

/// A digit string's value is never negative.
proof fn lemma_digits_val_nonneg(s: Seq<char>)
    requires
        spec_all_digits(s),
    ensures
        spec_digits_val(s) >= 0,
    decreases s.len(),
{
    if s.len() > 0 {
        lemma_digits_val_nonneg(s.drop_last());
    }
}

/// A longer digit string is worth at least as much as its prefix.
proof fn lemma_digits_val_grows(s: Seq<char>, i: int)
    requires
        spec_all_digits(s),
        0 <= i <= s.len(),
    ensures
        spec_digits_val(s) >= spec_digits_val(s.take(i)),
    decreases s.len() - i,
{
    if i == s.len() {
        assert(s.take(i) =~= s);
    } else {
        lemma_digits_val_grows(s, i + 1);
        assert(s.take(i + 1).drop_last() =~= s.take(i));
        assert(spec_all_digits(s.take(i)));
        lemma_digits_val_nonneg(s.take(i));
        assert(s.take(i + 1).last() == s[i]);
        assert(spec_digits_val(s.take(i + 1)) >= spec_digits_val(s.take(i)));
    }
}

/// Parses the decimal text of an `i64`, exactly when it is well formed.
pub fn parse_i64(s: &str) -> (r: Option<i64>)
    ensures
        r is Some <==> spec_valid_i64(s@),
        r matches Option::Some(v) ==> v as int == spec_i64_val(s@),
{
    let n = s.unicode_len();
    let neg = n > 0 && s.get_char(0) == '-';
    let start: usize = if neg {
        1
    } else {
        0
    };
    let ghost digits = if neg {
        s@.skip(1)
    } else {
        s@
    };
    let limit: u64 = if neg {
        0x8000000000000000
    } else {
        0x7fffffffffffffff
    };
    if n == start {
        proof {
            if !neg {
                assert(!spec_valid_i64(s@));
            }
        }
        return Option::None;
    }
    let mut acc: u64 = 0;
    let mut i: usize = start;
    proof {
        assert(digits.take(0) =~= Seq::<char>::empty());
    }
    while i < n
        invariant
            n == s@.len(),
            s@.len() <= usize::MAX,
            start <= i <= n,
            start == (if neg {
                1int
            } else {
                0int
            }),
            neg ==> (s@.len() > 0 && s@[0] == '-'),
            !neg ==> (s@.len() == 0 || s@[0] != '-'),
            digits == (if neg {
                s@.skip(1)
            } else {
                s@
            }),
            limit == (if neg {
                0x8000000000000000u64
            } else {
                0x7fffffffffffffffu64
            }),
            spec_all_digits(digits.take(i - start)),
            acc == spec_digits_val(digits.take(i - start)),
            acc <= limit,
        decreases n - i,
    {
        let c = s.get_char(i);
        proof {
            assert(digits[i - start] == s@[i as int]);
        }
        if !(c >= '0' && c <= '9') {
            proof {
                assert(!spec_valid_i64(s@));
            }
            return Option::None;
        }
        let d: u64 = (c as u32 as u64) - 48;
        proof {
            assert(d == spec_digit_val(c));
            assert(digits.take(i - start + 1).drop_last() =~= digits.take(i - start));
            assert(digits.take(i - start + 1).last() == digits[i - start]);
        }
        if acc > (limit - d) / 10 {
            proof {
                assert(acc * 10 + d > limit) by (nonlinear_arith)
                    requires
                        acc > (limit - d) / 10,
                        d <= limit,
                        0 <= d <= 9,
                ;
                assert(spec_digits_val(digits.take(i - start + 1)) > limit);
                assert forall|k: int| 0 <= k < digits.len() implies '0' <= #[trigger] digits[k]
                    <= '9' || !spec_all_digits(digits) by {}
                if spec_all_digits(digits) {
                    lemma_digits_val_grows(digits, i - start + 1);
                    assert(spec_digits_val(digits) >= spec_digits_val(digits.take(i - start + 1)));
                    assert(!spec_valid_i64(s@));
                } else {
                    assert(!spec_valid_i64(s@));
                }
            }
            return Option::None;
        }
        proof {
            assert(acc * 10 + d <= limit) by (nonlinear_arith)
                requires
                    acc <= (limit - d) / 10,
                    0 <= d <= 9,
                    d <= limit,
            ;
        }
        acc = acc * 10 + d;
        i += 1;
    }
    proof {
        assert(digits.take(n - start) =~= digits);
    }
    if neg {
        if acc == 0x8000000000000000 {
            proof {
                assert(i64::MIN as int == -spec_digits_val(digits));
            }
            Option::Some(i64::MIN)
        } else {
            let v = -(acc as i64);
            Option::Some(v)
        }
    } else {
        Option::Some(acc as i64)
    }
}

/// A command of the tool's command-line interface.
pub trait BldCommand {
    /// The name the command answers to on the command line.
    spec fn spec_id(&self) -> Seq<char>;

    /// The subcommand's name.
    fn id(&self) -> (r: String)
        ensures
            r@ == self.spec_id(),
    ;
}

/// Removes a pipeline from a remote server.
pub struct RemoveCommand;

impl RemoveCommand {
    /// The command, boxed for the command registry.
    pub fn boxed() -> (r: Box<RemoveCommand>)
        ensures
            r.spec_id() == "rm"@,
    {
        Box::new(RemoveCommand)
    }
}

impl BldCommand for RemoveCommand {
    open spec fn spec_id(&self) -> Seq<char> {
        "rm"@
    }

    fn id(&self) -> (r: String)
        ensures
            r@ == "rm"@,
    {
        String::from_str("rm")
    }
}

/// Whose name and credentials a request to `srv` is signed with: the
/// server's own, unless it borrows them from another entry by name; a
/// borrowed name that is not configured is an authentication error.
pub fn resolve_auth<'a>(remote: &'a BldRemoteConfig, srv: &'a BldServerConfig) -> (r: Result<
    (&'a String, &'a Option<String>),
    RunError,
>)
    ensures
        srv.same_auth_as is None ==> (r matches Result::Ok((n, a)) && n@ == srv.name@ && a
            == &srv.auth),
        srv.same_auth_as matches Option::Some(other) ==> (match crate::config::spec_find_server(
            remote.servers@,
            other@,
        ) {
            Option::Some(i) => r matches Result::Ok((n, a)) && n@ == remote.servers@[i].name@ && a
                == &remote.servers@[i].auth,
            Option::None => r matches Result::Err(e) && e is Auth,
        }),
{
    match &srv.same_auth_as {
        Option::Some(other) => match remote.find_server(other.as_str()) {
            Option::Some(s) => Result::Ok((&s.name, &s.auth)),
            Option::None => Result::Err(RunError::Auth),
        },
        Option::None => Result::Ok((&srv.name, &srv.auth)),
    }
}

/// The URL the removal is posted to: `http://<host>:<port>/remove`.
pub fn remove_url(host: &str, port: i64) -> (r: String)
    ensures
        r@ == "http://"@ + host@ + ":"@ + spec_int_text(port as int) + "/remove"@,
{
    let mut r = String::from_str("http://");
    r.append(host);
    r.append(":");
    let port_text = i64_text(port);
    r.append(port_text.as_str());
    r.append("/remove");
    r
}

/// The bind address of the server command: an explicit host argument wins
/// over the configured one, and an explicit port argument wins when it
/// parses as a decimal integer.
pub fn resolve_host_port(
    arg_host: Option<String>,
    arg_port: Option<String>,
    config: &BldConfig,
) -> (r: (String, i64))
    ensures
        r.0@ == (match arg_host {
            Option::Some(h) => h@,
            Option::None => config.local.host@,
        }),
        r.1 as int == (match arg_port {
            Option::Some(p) => if spec_valid_i64(p@) {
                spec_i64_val(p@)
            } else {
                config.local.port as int
            },
            Option::None => config.local.port as int,
        }),
{
    let host = match arg_host {
        Option::Some(h) => h,
        Option::None => String::from_str(config.local.host.as_str()),
    };
    let port = match arg_port {
        Option::Some(p) => match parse_i64(p.as_str()) {
            Option::Some(v) => v,
            Option::None => config.local.port,
        },
        Option::None => config.local.port,
    };
    (host, port)
}

} // verus!
