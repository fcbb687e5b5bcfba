//! Which handler a request goes to, and the decoding of its path parameters.
use vstd::prelude::*;

verus! {

/// The handler a request is dispatched to, with its decoded parameters.
#[derive(PartialEq, Eq, Structural, Clone, Copy, Debug)]
pub enum Route {
    Status,
    GetTodos,
    CreateTodo,
    GetItems(i32),
    CheckItem(i32, i32),
    /// The path has the shape of a route but a parameter is not an integer.
    BadRequest,
    /// No route has this method and path.
    NotFound,
}

pub open spec fn is_digit(c: char) -> bool {
    '0' <= c && c <= '9'
}

pub open spec fn all_digits(s: Seq<char>) -> bool {
    s.len() > 0 && forall|i: int| 0 <= i < s.len() ==> is_digit(#[trigger] s[i])
}

/// The value of a run of decimal digits.
pub open spec fn digits_value(s: Seq<char>) -> nat
    decreases s.len(),
{
    if s.len() == 0 {
        0
    } else {
        digits_value(s.drop_last()) * 10 + ((s.last() as nat) - ('0' as nat)) as nat
    }
}

/// The integer that `s` writes in decimal, with an optional sign, if any.
pub open spec fn int_value(s: Seq<char>) -> Option<int> {
    if s.len() > 0 && s[0] == '-' {
        if all_digits(s.drop_first()) {
            Some(-(digits_value(s.drop_first()) as int))
        } else {
            None
        }
    } else if s.len() > 0 && s[0] == '+' {
        if all_digits(s.drop_first()) {
            Some(digits_value(s.drop_first()) as int)
        } else {
            None
        }
    } else if all_digits(s) {
        Some(digits_value(s) as int)
    } else {
        None
    }
}

/// `s` read as an `i32`: its decimal value where it has one in range.
pub open spec fn parse_i32(s: Seq<char>) -> Option<i32> {
    match int_value(s) {
        Some(v) => if i32::MIN <= v <= i32::MAX {
            Some(v as i32)
        } else {
            None
        },
        None => None,
    }
}

proof fn lemma_digits_value_grows(s: Seq<char>, j: int)
    requires
        0 <= j <= s.len(),
        forall|i: int| 0 <= i < s.len() ==> is_digit(#[trigger] s[i]),
    ensures
        digits_value(s.take(j)) <= digits_value(s),
    decreases s.len(),
{
    if j < s.len() {
        assert(s.drop_last().take(j) =~= s.take(j));
        lemma_digits_value_grows(s.drop_last(), j);
    } else {
        assert(s.take(j) =~= s);
    }
}

/// Decodes a path parameter as std's `i32` parser does: an optional `+` or
/// `-`, then one or more decimal digits, the value in range.
pub fn parse_int(s: &str) -> (r: Option<i32>)
    ensures
        r == parse_i32(s@),
{
    let n = s.unicode_len();
    let mut start: usize = 0;
    let mut negative = false;
    if n > 0 {
        let c = s.get_char(0);
        if c == '-' {
            negative = true;
            start = 1;
        } else if c == '+' {
            start = 1;
        }
    }
    let ghost body = s@.subrange(start as int, n as int);
    proof {
        if start == 1 {
            assert(body =~= s@.drop_first());
        } else {
            assert(body =~= s@);
        }
    }
    if start == n {
        return None;
    }
    assert(int_value(s@) == (if all_digits(body) {
        Some(if negative { -(digits_value(body) as int) } else { digits_value(body) as int })
    } else {
        None::<int>
    }));
    let mut acc: u64 = 0;
    let mut i: usize = start;
    while i < n
        invariant
            n == s@.len(),
            start <= i <= n,
            start < n,
            body == s@.subrange(start as int, n as int),
            forall|k: int| 0 <= k < i - start ==> is_digit(#[trigger] body[k]),
            acc == digits_value(body.take(i - start)),
            acc <= 2147483648,
            int_value(s@) == (if all_digits(body) {
                Some(if negative { -(digits_value(body) as int) } else { digits_value(body) as int })
            } else {
                None::<int>
            }),
        decreases n - i,
    {
        let c = s.get_char(i);
        if !('0' <= c && c <= '9') {
            proof {
                assert(!is_digit(body[i - start]));
            }
            return None;
        }
        let d = (c as u64) - ('0' as u64);
        proof {
            let t = body.take(i - start + 1);
            assert(t.drop_last() =~= body.take(i - start));
            assert(t.last() == c);
        }
        acc = acc * 10 + d;
        i = i + 1;
        if acc > 2147483648 {
            proof {
                if all_digits(body) {
                    lemma_digits_value_grows(body, i - start);
                }
            }
            return None;
        }
    }
    proof {
        assert(body.take(n - start) =~= body);
    }
    if negative {
        Some((0 - (acc as i64)) as i32)
    } else if acc <= 2147483647 {
        Some(acc as i32)
    } else {
        None
    }
}

/// A non-empty path segment.
pub open spec fn segment(s: Seq<char>) -> bool {
    s.len() > 0 && forall|i: int| 0 <= i < s.len() ==> #[trigger] s[i] != '/'
}

/// `/todos`, with an optional trailing slash.
pub open spec fn lists_path(p: Seq<char>) -> bool {
    p == "/todos"@ || p == "/todos/"@
}

/// `/todos/{a}/items`
pub open spec fn items_path(p: Seq<char>, a: Seq<char>) -> bool {
    segment(a) && p == "/todos/"@ + a + "/items"@
}

/// `/todos/{a}/items/{b}`
pub open spec fn item_path(p: Seq<char>, a: Seq<char>, b: Seq<char>) -> bool {
    segment(a) && segment(b) && p == "/todos/"@ + a + "/items/"@ + b
}

/// Where a request with method `m` and path `p` goes.
pub open spec fn route_of(m: Seq<char>, p: Seq<char>) -> Route {
    if p == "/"@ {
        if m == "GET"@ {
            Route::Status
        } else {
            Route::NotFound
        }
    } else if lists_path(p) {
        if m == "GET"@ {
            Route::GetTodos
        } else if m == "POST"@ {
            Route::CreateTodo
        } else {
            Route::NotFound
        }
    } else if exists|a: Seq<char>| items_path(p, a) {
        if m == "GET"@ {
            let a = choose|a: Seq<char>| items_path(p, a);
            match parse_i32(a) {
                Some(x) => Route::GetItems(x),
                None => Route::BadRequest,
            }
        } else {
            Route::NotFound
        }
    } else if exists|a: Seq<char>, b: Seq<char>| item_path(p, a, b) {
        if m == "PUT"@ {
            let (a, b) = choose|a: Seq<char>, b: Seq<char>| item_path(p, a, b);
            match (parse_i32(a), parse_i32(b)) {
                (Some(x), Some(y)) => Route::CheckItem(x, y),
                _ => Route::BadRequest,
            }
        } else {
            Route::NotFound
        }
    } else {
        Route::NotFound
    }
}

fn matches_at(s: &str, at: usize, lit: &str) -> (r: bool)
    ensures
        r == (at + lit@.len() <= s@.len() && s@.subrange(at as int, at + lit@.len()) == lit@),
{
    let n = s.unicode_len();
    let m = lit.unicode_len();
    if at > n || m > n - at {
        return false;
    }
    let mut i: usize = 0;
    while i < m
        invariant
            n == s@.len(),
            m == lit@.len(),
            at + m <= n,
            i <= m,
            forall|k: int| 0 <= k < i ==> s@[at + k] == lit@[k],
        decreases m - i,
    {
        if s.get_char(at + i) != lit.get_char(i) {
            proof {
                assert(s@.subrange(at as int, at + m)[i as int] != lit@[i as int]);
            }
            return false;
        }
        i = i + 1;
    }
    proof {
        assert(s@.subrange(at as int, at + m) =~= lit@);
    }
    true
}

fn find_slash(s: &str, from: usize) -> (r: usize)
    requires
        from <= s@.len(),
    ensures
        from <= r <= s@.len(),
        forall|k: int| from <= k < r ==> #[trigger] s@[k] != '/',
        r < s@.len() ==> s@[r as int] == '/',
{
    let n = s.unicode_len();
    let mut i: usize = from;
    while i < n
        invariant
            n == s@.len(),
            from <= i <= n,
            forall|k: int| from <= k < i ==> #[trigger] s@[k] != '/',
        decreases n - i,
    {
        if s.get_char(i) == '/' {
            return i;
        }
        i = i + 1;
    }
    i
}

/// Where a shape `/todos/{a}...` puts the end of `a`: at the first slash.
proof fn lemma_first_slash(p: Seq<char>, a: Seq<char>, rest: Seq<char>, j: int)
    requires
        segment(a),
        rest.len() > 0,
        rest[0] == '/',
        p == "/todos/"@ + a + rest,
        7 <= j <= p.len(),
        forall|k: int| 7 <= k < j ==> #[trigger] p[k] != '/',
        j < p.len() ==> p[j] == '/',
    ensures
        j == 7 + a.len(),
        a == p.subrange(7, j),
        rest == p.subrange(j, p.len() as int),
{
    reveal_strlit("/todos/");
    assert(p[7 + a.len() as int] == rest[0]);
    if j < 7 + a.len() as int {
        assert(p[j] == a[j - 7]);
    }
    assert(p.subrange(7, 7 + a.len() as int) =~= a);
    assert(p.subrange(7 + a.len() as int, p.len() as int) =~= rest);
}

/// Dispatches a request by its method and path. A path parameter that is
/// not an integer gives `BadRequest`; no handler is reached then.
pub fn route(method: &str, path: &str) -> (r: Route)
    ensures
        r == route_of(method@, path@),
{
    proof {
        reveal_strlit("/todos/");
        reveal_strlit("/items");
        reveal_strlit("/items/");
    }
    let ghost p = path@;
    let n = path.unicode_len();
    let get = matches_at(method, 0, "GET") && method.unicode_len() == 3;
    let post = matches_at(method, 0, "POST") && method.unicode_len() == 4;
    let put = matches_at(method, 0, "PUT") && method.unicode_len() == 3;
    proof {
        reveal_strlit("GET");
        reveal_strlit("POST");
        reveal_strlit("PUT");
        assert(get == (method@ == "GET"@)) by {
            if method@.len() == 3 {
                assert(method@.subrange(0, 3) =~= method@);
            }
        }
        assert(post == (method@ == "POST"@)) by {
            if method@.len() == 4 {
                assert(method@.subrange(0, 4) =~= method@);
            }
        }
        assert(put == (method@ == "PUT"@)) by {
            if method@.len() == 3 {
                assert(method@.subrange(0, 3) =~= method@);
            }
        }
    }
    if n == 1 && matches_at(path, 0, "/") {
        proof {
            reveal_strlit("/");
            assert(p.subrange(0, 1) =~= p);
        }
        return if get {
            Route::Status
        } else {
            Route::NotFound
        };
    }
    proof {
        reveal_strlit("/");
        if p == "/"@ {
            assert(p.subrange(0, 1) =~= p);
        }
    }
    let short = n == 6 && matches_at(path, 0, "/todos");
    let long = n == 7 && matches_at(path, 0, "/todos/");
    proof {
        reveal_strlit("/todos");
        if n == 6 {
            assert(p.subrange(0, 6) =~= p);
        }
        if n == 7 {
            assert(p.subrange(0, 7) =~= p);
        }
        assert((short || long) == lists_path(p));
    }
    if short || long {
        return if get {
            Route::GetTodos
        } else if post {
            Route::CreateTodo
        } else {
            Route::NotFound
        };
    }
    if !matches_at(path, 0, "/todos/") {
        proof {
            assert forall|a: Seq<char>| !items_path(p, a) by {
                if items_path(p, a) {
                    assert(p.subrange(0, 7) =~= "/todos/"@);
                }
            }
            assert forall|a: Seq<char>, b: Seq<char>| !item_path(p, a, b) by {
                if item_path(p, a, b) {
                    assert(p.subrange(0, 7) =~= "/todos/"@);
                }
            }
        }
        return Route::NotFound;
    }
    let j = find_slash(path, 7);
    let ghost a = p.subrange(7, j as int);
    proof {
        assert forall|a2: Seq<char>| items_path(p, a2) implies a2 == a && j + 6 == n by {
            lemma_first_slash(p, a2, "/items"@, j as int);
        }
        assert forall|a2: Seq<char>, b2: Seq<char>| item_path(p, a2, b2) implies a2 == a
            && p.subrange(j as int, n as int) == "/items/"@ + b2 by {
            assert(p =~= "/todos/"@ + a2 + ("/items/"@ + b2));
            lemma_first_slash(p, a2, "/items/"@ + b2, j as int);
        }
    }
    if j == 7 || j == n {
        proof {
            assert forall|a2: Seq<char>| !items_path(p, a2) by {
                if items_path(p, a2) {
                    assert(a2.len() > 0);
                }
            }
            assert forall|a2: Seq<char>, b2: Seq<char>| !item_path(p, a2, b2) by {
                if item_path(p, a2, b2) {
                    assert(a2.len() > 0);
                }
            }
        }
        return Route::NotFound;
    }
    if n - j == 6 && matches_at(path, j, "/items") {
        proof {
            assert(p =~= "/todos/"@ + a + "/items"@) by {
                assert(p.subrange(0, 7) =~= "/todos/"@);
                assert(p.subrange(j as int, n as int) =~= "/items"@);
            }
            assert(items_path(p, a));
        }
        if get {
            let x = parse_int(path.substring_char(7, j));
            return match x {
                Some(v) => Route::GetItems(v),
                None => Route::BadRequest,
            };
        } else {
            return Route::NotFound;
        }
    }
    proof {
        assert forall|a2: Seq<char>| !items_path(p, a2) by {
            if items_path(p, a2) {
                assert(p.subrange(j as int, n as int) =~= "/items"@);
            }
        }
    }
    if matches_at(path, j, "/items/") && n - j > 7 && find_slash(path, j + 7) == n {
        let ghost b = p.subrange(j + 7, n as int);
        proof {
            assert(p =~= "/todos/"@ + a + "/items/"@ + b) by {
                assert(p.subrange(0, 7) =~= "/todos/"@);
            }
            assert(item_path(p, a, b));
            assert forall|a2: Seq<char>, b2: Seq<char>| item_path(p, a2, b2) implies a2 == a && b2 == b by {
                assert(p.subrange(j as int, n as int) == "/items/"@ + b2);
                assert(p.subrange(j as int, n as int) =~= "/items/"@ + b);
                assert(b2 =~= (("/items/"@ + b2).subrange(7, 7 + b2.len() as int)));
                assert(b =~= (("/items/"@ + b).subrange(7, 7 + b.len() as int)));
            }
        }
        if put {
            let x = parse_int(path.substring_char(7, j));
            let y = parse_int(path.substring_char(j + 7, n));
            return match (x, y) {
                (Some(v), Some(w)) => Route::CheckItem(v, w),
                _ => Route::BadRequest,
            };
        } else {
            return Route::NotFound;
        }
    }
    proof {
        assert forall|a2: Seq<char>, b2: Seq<char>| !item_path(p, a2, b2) by {
            if item_path(p, a2, b2) {
                let tail = p.subrange(j as int, n as int);
                assert(tail == "/items/"@ + b2);
                assert(tail.subrange(0, 7) =~= "/items/"@);
                assert(p.subrange(j as int, j + 7) =~= tail.subrange(0, 7));
                assert(b2.len() > 0);
                assert forall|k: int| j + 7 <= k < n implies p[k] != '/' by {
                    assert(p[k] == b2[k - j - 7]);
                }
            }
        }
    }
    Route::NotFound
}

/// A list identifier in the path that is not an integer makes a listing of
/// items a bad request, whatever the segment holds.
pub proof fn law_non_integer_list_id_is_bad_request(a: Seq<char>)
    requires
        segment(a),
        parse_i32(a) is None,
    ensures
        route_of("GET"@, "/todos/"@ + a + "/items"@) == Route::BadRequest,
{
    reveal_strlit("/todos/");
    reveal_strlit("/items");
    reveal_strlit("/todos");
    reveal_strlit("/");
    let p = "/todos/"@ + a + "/items"@;
    assert(items_path(p, a));
    assert(p.len() >= 14);
    assert(p != "/"@);
    assert(!lists_path(p));
    let a2 = choose|a2: Seq<char>| items_path(p, a2);
    assert(a2.len() == a.len());
    assert(a2 =~= a) by {
        assert forall|k: int| 0 <= k < a.len() implies a2[k] == a[k] by {
            assert(p[7 + k] == a[k]);
            assert(p[7 + k] == a2[k]);
        }
    }
}

} // verus!
