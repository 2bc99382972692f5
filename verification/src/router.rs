//! The route table and its dispatcher. Three routes exist, all under `GET`:
//! `/health`, `/users`, and `/users/{id}` with a decimal `u32` path
//! parameter. `dispatches_to` is the exact specification of how a request is
//! routed; `Router::handle` is proved against it.

use vstd::prelude::*;

use crate::error::{error_body, HttpResponse};
use crate::handlers::{get_user, health_body, health_check, list_users, user_body};

verus! {

/// Whether `c` is an ASCII decimal digit.
pub open spec fn is_digit(c: char) -> bool {
    48 <= c as u32 <= 57
}

/// The numeric value of a digit character.
pub open spec fn digit_val(c: char) -> int {
    c as u32 - 48
}

/// Whether every character of `s` is a decimal digit.
pub open spec fn all_digits(s: Seq<char>) -> bool {
    forall|i: int| 0 <= i < s.len() ==> is_digit(s[i])
}

/// The value of `s` read as a decimal numeral.
pub open spec fn digits_value(s: Seq<char>) -> int
    decreases s.len(),
{
    if s.len() == 0 {
        0
    } else {
        digits_value(s.drop_last()) * 10 + digit_val(s.last())
    }
}

/// Whether `s` is a decimal numeral that denotes a `u32`: non-empty, digits
/// only, and within range. Exactly these segments are accepted as an `{id}`
/// path parameter.
pub open spec fn parses_to_u32(s: Seq<char>) -> bool {
    &&& s.len() > 0
    &&& all_digits(s)
    &&& digits_value(s) <= u32::MAX
}

proof fn lemma_digits_value_nonneg(s: Seq<char>)
    requires
        all_digits(s),
    ensures
        digits_value(s) >= 0,
    decreases s.len(),
{
    if s.len() > 0 {
        assert(all_digits(s.drop_last()));
        lemma_digits_value_nonneg(s.drop_last());
    }
}

/// A numeral only grows as digits are appended: the value of a prefix is at
/// most the value of the whole.
proof fn lemma_digits_value_prefix(s: Seq<char>, j: int)
    requires
        all_digits(s),
        0 <= j <= s.len(),
    ensures
        digits_value(s.take(j)) <= digits_value(s),
    decreases s.len() - j,
{
    if j < s.len() {
        lemma_digits_value_prefix(s, j + 1);
        assert(s.take(j + 1).drop_last() =~= s.take(j));
        assert(all_digits(s.take(j)));
        lemma_digits_value_nonneg(s.take(j));
        assert(digits_value(s.take(j + 1)) == digits_value(s.take(j)) * 10 + digit_val(s[j]));
    } else {
        assert(s.take(j) =~= s);
    }
}

/// Reads a decimal `u32` from `s`: `Some` exactly when `s` is a non-empty
/// all-digit numeral whose value fits, and then the denoted value.
pub fn parse_u32(s: &str) -> (r: Option<u32>)
    ensures
        r is Some <==> parses_to_u32(s@),
        r matches Some(v) ==> v == digits_value(s@),
{
    let n = s.unicode_len();
    if n == 0 {
        return None;
    }
    let mut acc: u32 = 0;
    let mut i: usize = 0;
    while i < n
        invariant
            n == s@.len(),
            0 < n,
            i <= n,
            all_digits(s@.take(i as int)),
            acc == digits_value(s@.take(i as int)),
        decreases n - i,
    {
        let c = s.get_char(i);
        let u: u32 = c as u32;
        if u < 48 || u > 57 {
            proof {
                assert(!is_digit(s@[i as int]));
            }
            return None;
        }
        let d: u32 = u - 48;
        proof {
            assert(s@.take(i + 1).drop_last() =~= s@.take(i as int));
            assert(s@.take(i + 1).last() == s@[i as int]);
            assert(all_digits(s@.take(i + 1)));
            assert(digits_value(s@.take(i + 1)) == acc * 10 + d);
        }
        if acc > (u32::MAX - d) / 10 {
            proof {
                let m = (u32::MAX - d) as int;
                assert(10 * (m / 10) <= m < 10 * (m / 10) + 10) by (nonlinear_arith);
                assert(acc * 10 + d > u32::MAX);
                if all_digits(s@) {
                    lemma_digits_value_prefix(s@, i + 1);
                    assert(digits_value(s@) > u32::MAX);
                }
            }
            return None;
        }
        proof {
            let m = (u32::MAX - d) as int;
            assert(10 * (m / 10) <= m) by (nonlinear_arith);
            assert(acc * 10 + d <= u32::MAX);
        }
        acc = acc * 10 + d;
        i = i + 1;
    }
    proof {
        assert(s@.take(n as int) =~= s@);
    }
    Some(acc)
}

/// Character-by-character string equality, proved to decide view equality.
fn str_eq(a: &str, b: &str) -> (r: bool)
    ensures
        r == (a@ == b@),
{
    let n = a.unicode_len();
    let m = b.unicode_len();
    if n != m {
        return false;
    }
    let mut i: usize = 0;
    while i < n
        invariant
            n == a@.len(),
            n == b@.len(),
            i <= n,
            forall|j: int| 0 <= j < i ==> a@[j] == b@[j],
        decreases n - i,
    {
        let ca = a.get_char(i);
        let cb = b.get_char(i);
        if ca != cb {
            return false;
        }
        i = i + 1;
    }
    proof {
        assert(a@ =~= b@);
    }
    true
}

/// Whether `path` is `/users/` followed by one non-empty segment: long
/// enough, the literal prefix, and no further separator.
pub open spec fn is_user_path(path: Seq<char>) -> bool {
    &&& path.len() > 7
    &&& path.subrange(0, 7) == "/users/"@
    &&& forall|i: int| 7 <= i < path.len() ==> path[i] != '/'
}

/// The `{id}` segment of a user path: everything after `/users/`.
pub open spec fn user_path_segment(path: Seq<char>) -> Seq<char> {
    path.skip(7)
}

fn is_user_path_exec(path: &str) -> (r: bool)
    ensures
        r == is_user_path(path@),
{
    let n = path.unicode_len();
    if n <= 7 {
        return false;
    }
    proof {
        reveal_strlit("/users/");
    }
    let prefix = path.substring_char(0, 7);
    if !str_eq(prefix, "/users/") {
        return false;
    }
    let mut i: usize = 7;
    while i < n
        invariant
            n == path@.len(),
            7 <= i <= n,
            forall|j: int| 7 <= j < i ==> path@[j] != '/',
        decreases n - i,
    {
        if path.get_char(i) == '/' {
            return false;
        }
        i = i + 1;
    }
    true
}

/// What came of routing one request.
pub enum RouteOutcome {
    /// A route matched and its handler answered.
    Routed(HttpResponse),
    /// The `{id}` segment of a matched route is not a `u32` numeral; the
    /// transport answers 400 before any handler runs.
    BadParameter,
    /// A route matched the path but not the method; the transport answers 405.
    WrongMethod,
    /// No route matched; the transport answers 404.
    UnknownRoute,
}

/// The route table's full behaviour: for every method and path, exactly what
/// the outcome must be.
pub open spec fn dispatches_to(method: Seq<char>, path: Seq<char>, r: RouteOutcome) -> bool {
    if path == "/health"@ {
        if method == "GET"@ {
            r matches RouteOutcome::Routed(resp) && resp.status == 200 && health_body(resp.body)
        } else {
            r is WrongMethod
        }
    } else if path == "/users"@ {
        if method == "GET"@ {
            r matches RouteOutcome::Routed(resp) && resp.status == 500 && error_body(
                resp.body,
                "internal server error"@,
            )
        } else {
            r is WrongMethod
        }
    } else if is_user_path(path) {
        if method == "GET"@ {
            let seg = user_path_segment(path);
            if !parses_to_u32(seg) {
                r is BadParameter
            } else if digits_value(seg) > 100 {
                r matches RouteOutcome::Routed(resp) && resp.status == 404 && error_body(
                    resp.body,
                    "Data not found"@,
                )
            } else {
                r matches RouteOutcome::Routed(resp) && resp.status == 200 && user_body(
                    resp.body,
                    digits_value(seg) as u32,
                )
            }
        } else {
            r is WrongMethod
        }
    } else {
        r is UnknownRoute
    }
}

/// The fixed route table. It holds no state: every request is answered
/// independently, by `handle`.
pub struct Router {}

/// Composes the service's route table.
pub fn create_app() -> Router {
    Router {  }
}

impl Router {
    /// Routes one request and runs the matched handler to completion, as
    /// `dispatches_to` prescribes. No request is left unanswered: every
    /// method and path falls in exactly one case.
    pub fn handle(&self, method: &str, path: &str) -> (r: RouteOutcome)
        ensures
            dispatches_to(method@, path@, r),
    {
        let get = str_eq(method, "GET");
        if str_eq(path, "/health") {
            if get {
                RouteOutcome::Routed(HttpResponse { status: 200, body: health_check() })
            } else {
                RouteOutcome::WrongMethod
            }
        } else if str_eq(path, "/users") {
            if get {
                match list_users() {
                    Ok(body) => RouteOutcome::Routed(HttpResponse { status: 200, body }),
                    Err(e) => RouteOutcome::Routed(e.into_response()),
                }
            } else {
                RouteOutcome::WrongMethod
            }
        } else if is_user_path_exec(path) {
            if get {
                let n = path.unicode_len();
                let seg = path.substring_char(7, n);
                proof {
                    assert(seg@ =~= user_path_segment(path@));
                }
                match parse_u32(seg) {
                    None => RouteOutcome::BadParameter,
                    Some(id) => match get_user(id) {
                        Ok(body) => RouteOutcome::Routed(HttpResponse { status: 200, body }),
                        Err(e) => RouteOutcome::Routed(e.into_response()),
                    },
                }
            } else {
                RouteOutcome::WrongMethod
            }
        } else {
            RouteOutcome::UnknownRoute
        }
    }
}

} // verus!
