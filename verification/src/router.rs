//! The static dispatch table: exact method and path matching, with one
//! integer path parameter for the per-item routes.

use vstd::prelude::*;
use crate::decimal::is_digit;

verus! {

/// The numeric value of a digit character.
pub open spec fn digit_value(c: char) -> int {
    c as u32 - '0' as u32
}

/// Every character is a decimal digit.
pub open spec fn all_digits(s: Seq<char>) -> bool {
    forall|i: int| 0 <= i < s.len() ==> is_digit(#[trigger] s[i])
}

/// The value of a digit string, most significant digit first.
pub open spec fn digits_value(s: Seq<char>) -> int
    decreases s.len(),
{
    if s.len() == 0 {
        0
    } else {
        digits_value(s.drop_last()) * 10 + digit_value(s.last())
    }
}

/// Whether `s` is a decimal integer: an optional sign, then at least one
/// digit.
pub open spec fn int_text_wf(s: Seq<char>) -> bool {
    if s.len() == 0 {
        false
    } else if s[0] == '+' || s[0] == '-' {
        s.len() >= 2 && all_digits(s.skip(1))
    } else {
        all_digits(s)
    }
}

/// The signed value a well-formed decimal integer denotes.
pub open spec fn int_text_value(s: Seq<char>) -> int {
    if s.len() > 0 && s[0] == '-' {
        -digits_value(s.skip(1))
    } else if s.len() > 0 && s[0] == '+' {
        digits_value(s.skip(1))
    } else {
        digits_value(s)
    }
}

/// What parsing `s` as an `i32` yields: its value when `s` is a decimal
/// integer within range, nothing otherwise.
pub open spec fn parses_to_i32(s: Seq<char>) -> Option<i32> {
    if int_text_wf(s) && i32::MIN <= int_text_value(s) <= i32::MAX {
        Some(int_text_value(s) as i32)
    } else {
        None
    }
}

proof fn lemma_all_digits_drop_last(s: Seq<char>)
    requires
        all_digits(s),
        s.len() > 0,
    ensures
        all_digits(s.drop_last()),
{
    assert forall|i: int| 0 <= i < s.drop_last().len() implies is_digit(
        #[trigger] s.drop_last()[i],
    ) by {
        assert(s.drop_last()[i] == s[i]);
    }
}

proof fn lemma_digits_value_nonneg(s: Seq<char>)
    requires
        all_digits(s),
    ensures
        digits_value(s) >= 0,
    decreases s.len(),
{
    if s.len() > 0 {
        lemma_all_digits_drop_last(s);
        lemma_digits_value_nonneg(s.drop_last());
        assert(is_digit(s.last()));
    }
}

proof fn lemma_digits_value_prefix_le(s: Seq<char>, i: int)
    requires
        all_digits(s),
        0 <= i <= s.len(),
    ensures
        digits_value(s.take(i)) <= digits_value(s),
    decreases s.len(),
{
    if i < s.len() {
        let head = s.drop_last();
        lemma_all_digits_drop_last(s);
        lemma_digits_value_prefix_le(head, i);
        assert(s.take(i) =~= head.take(i));
        lemma_digits_value_nonneg(head);
        assert(is_digit(s.last()));
        assert(digit_value(s.last()) >= 0);
        assert(digits_value(head) * 10 >= digits_value(head));
        assert(digits_value(s) == digits_value(head) * 10 + digit_value(s.last()));
        assert(digits_value(s.take(i)) <= digits_value(head));
    } else {
        assert(s.take(i) =~= s);
    }
}

/// Parses a decimal integer exactly as the routing layer does for the id
/// path segment: an optional sign, digits, and a range check.
pub fn parse_i32(s: &str) -> (r: Option<i32>)
    ensures
        r == parses_to_i32(s@),
{
    let len = s.unicode_len();
    if len == 0 {
        return None;
    }
    let first = s.get_char(0);
    let negative = first == '-';
    let start: usize = if first == '-' || first == '+' {
        1
    } else {
        0
    };
    if start >= len {
        return None;
    }
    let ghost d = s@.skip(start as int);
    let mut acc: u64 = 0;
    let mut i: usize = start;
    while i < len
        invariant
            len == s@.len(),
            start <= i <= len,
            start == 0 || start == 1,
            start == 1 ==> (s@[0] == '+' || s@[0] == '-'),
            start == 0 ==> !(s@[0] == '+' || s@[0] == '-'),
            negative == (s@[0] == '-'),
            start < len,
            d == s@.skip(start as int),
            all_digits(d.take(i - start)),
            acc == digits_value(d.take(i - start)),
            acc <= 2147483648,
        decreases len - i,
    {
        let c = s.get_char(i);
        proof {
            assert(d[i - start] == s@[i as int]);
            assert(d.take(i + 1 - start).drop_last() =~= d.take(i - start));
            assert(d.take(i + 1 - start).last() == d[i - start]);
        }
        if c < '0' || c > '9' {
            proof {
                assert(!is_digit(d[i - start]));
                assert(!all_digits(d));
                assert(!int_text_wf(s@));
            }
            return None;
        }
        let dv: u32 = (c as u32) - ('0' as u32);
        let next: u64 = acc * 10 + (dv as u64);
        proof {
            assert(all_digits(d.take(i + 1 - start)));
            assert(digits_value(d.take(i + 1 - start)) == acc * 10 + digit_value(d[i - start]));
        }
        if next > 2147483648 {
            proof {
                if int_text_wf(s@) {
                    assert(all_digits(d));
                    lemma_digits_value_prefix_le(d, i + 1 - start);
                    assert(digits_value(d) > 2147483648);
                    if negative {
                        assert(int_text_value(s@) == -digits_value(d));
                        assert(int_text_value(s@) < i32::MIN);
                    } else {
                        if start == 1 {
                            assert(int_text_value(s@) == digits_value(d));
                        } else {
                            assert(d =~= s@);
                            assert(int_text_value(s@) == digits_value(d));
                        }
                        assert(int_text_value(s@) > i32::MAX);
                    }
                }
            }
            return None;
        }
        acc = next;
        i = i + 1;
    }
    proof {
        assert(d.take(len - start) =~= d);
        assert(all_digits(d));
        if start == 0 {
            assert(d =~= s@);
        }
        assert(int_text_wf(s@));
        assert(int_text_value(s@) == if negative {
            -digits_value(d)
        } else {
            digits_value(d)
        });
    }
    if negative {
        let v: i32 = (-(acc as i64)) as i32;
        Some(v)
    } else {
        if acc > 2147483647 {
            proof {
                assert(int_text_value(s@) > i32::MAX);
            }
            None
        } else {
            Some(acc as i32)
        }
    }
}

/// Where one request goes: the seven routes of the service.
#[derive(PartialEq, Eq, Structural, Clone, Copy, Debug)]
pub enum RouteTarget {
    Home,
    Health,
    ApiInfo,
    ListItems,
    CreateItem,
    GetItem(i32),
    DeleteItem(i32),
}

/// Whether `path` is `/api/items/` followed by a parseable id, and the id.
pub open spec fn item_path_id(path: Seq<char>) -> Option<i32> {
    if path.len() > "/api/items/"@.len() && path.take("/api/items/"@.len() as int)
        == "/api/items/"@ {
        parses_to_i32(path.skip("/api/items/"@.len() as int))
    } else {
        None
    }
}

/// The dispatch table: exact method and path matching, with one integer
/// path parameter for the per-item routes.  Anything else is unmatched.
pub open spec fn route_spec(method: Seq<char>, path: Seq<char>) -> Option<RouteTarget> {
    if method == "GET"@ && path == "/"@ {
        Some(RouteTarget::Home)
    } else if method == "GET"@ && path == "/health"@ {
        Some(RouteTarget::Health)
    } else if method == "GET"@ && path == "/api/"@ {
        Some(RouteTarget::ApiInfo)
    } else if method == "GET"@ && path == "/api/items"@ {
        Some(RouteTarget::ListItems)
    } else if method == "POST"@ && path == "/api/items"@ {
        Some(RouteTarget::CreateItem)
    } else if method == "GET"@ && item_path_id(path) is Some {
        Some(RouteTarget::GetItem(item_path_id(path)->Some_0))
    } else if method == "DELETE"@ && item_path_id(path) is Some {
        Some(RouteTarget::DeleteItem(item_path_id(path)->Some_0))
    } else {
        None
    }
}

fn str_eq(a: &str, b: &str) -> (r: bool)
    ensures
        r == (a@ == b@),
{
    let la = a.unicode_len();
    let lb = b.unicode_len();
    if la != lb {
        proof {
            assert(a@.len() != b@.len());
        }
        return false;
    }
    let mut i: usize = 0;
    while i < la
        invariant
            la == a@.len(),
            la == b@.len(),
            i <= la,
            forall|j: int| 0 <= j < i ==> a@[j] == b@[j],
        decreases la - i,
    {
        let ca = a.get_char(i);
        let cb = b.get_char(i);
        if ca != cb {
            proof {
                assert(a@[i as int] != b@[i as int]);
            }
            return false;
        }
        i = i + 1;
    }
    proof {
        assert(a@ =~= b@);
    }
    true
}

/// Dispatches one request: which handler answers it, if any.
pub fn match_route(method: &str, path: &str) -> (r: Option<RouteTarget>)
    ensures
        r == route_spec(method@, path@),
{
    let get = str_eq(method, "GET");
    if get && str_eq(path, "/") {
        Some(RouteTarget::Home)
    } else if get && str_eq(path, "/health") {
        Some(RouteTarget::Health)
    } else if get && str_eq(path, "/api/") {
        Some(RouteTarget::ApiInfo)
    } else if get && str_eq(path, "/api/items") {
        Some(RouteTarget::ListItems)
    } else if str_eq(method, "POST") && str_eq(path, "/api/items") {
        Some(RouteTarget::CreateItem)
    } else {
        let delete = str_eq(method, "DELETE");
        if !(get || delete) {
            return None;
        }
        let prefix = "/api/items/";
        let plen = prefix.unicode_len();
        let len = path.unicode_len();
        if len <= plen {
            proof {
                assert(item_path_id(path@) is None);
            }
            return None;
        }
        let head = path.substring_char(0, plen);
        if !str_eq(head, prefix) {
            proof {
                assert(path@.take(prefix@.len() as int) != prefix@);
                assert(item_path_id(path@) is None);
            }
            return None;
        }
        let rest = path.substring_char(plen, len);
        proof {
            assert(rest@ =~= path@.skip(prefix@.len() as int));
        }
        match parse_i32(rest) {
            Some(id) => {
                if get {
                    Some(RouteTarget::GetItem(id))
                } else {
                    Some(RouteTarget::DeleteItem(id))
                }
            },
            None => {
                proof {
                    assert(item_path_id(path@) is None);
                }
                None
            },
        }
    }
}

/// One line of the route table: the method, the path pattern, and what the
/// route does.
pub struct Route {
    pub method: String,
    pub path: String,
    pub description: String,
}

/// The route table, in registration order: the seven routes the service
/// serves.
pub fn configure_routes() -> (r: Vec<Route>)
    ensures
        r@.len() == 7,
        r@[0].method@ == "GET"@ && r@[0].path@ == "/"@,
        r@[1].method@ == "GET"@ && r@[1].path@ == "/health"@,
        r@[2].method@ == "GET"@ && r@[2].path@ == "/api/"@,
        r@[3].method@ == "GET"@ && r@[3].path@ == "/api/items"@,
        r@[4].method@ == "POST"@ && r@[4].path@ == "/api/items"@,
        r@[5].method@ == "GET"@ && r@[5].path@ == "/api/items/{id}"@,
        r@[6].method@ == "DELETE"@ && r@[6].path@ == "/api/items/{id}"@,
{
    let mut r: Vec<Route> = Vec::new();
    r.push(route_line("GET", "/", "Homepage"));
    r.push(route_line("GET", "/health", "Health check"));
    r.push(route_line("GET", "/api/", "API info"));
    r.push(route_line("GET", "/api/items", "List all items"));
    r.push(route_line("POST", "/api/items", "Create new item"));
    r.push(route_line("GET", "/api/items/{id}", "Get item by ID"));
    r.push(route_line("DELETE", "/api/items/{id}", "Delete item by ID"));
    r
}

fn route_line(method: &str, path: &str, description: &str) -> (r: Route)
    ensures
        r.method@ == method@,
        r.path@ == path@,
        r.description@ == description@,
{
    Route {
        method: String::from_str(method),
        path: String::from_str(path),
        description: String::from_str(description),
    }
}

} // verus!
