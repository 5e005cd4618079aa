use vstd::prelude::*;

use itertools::Itertools;

use crate::http_request::HttpMethod;
use crate::text::{find_elem, lemma_find_elem, str_eq};

verus! {

/// The routes that the server answers; a request that matches none gets `NotFound`.
#[derive(Debug)]
pub enum HttpRequestType {
    GetRoot,
    GetEcho(String),
    GetUserAgent,
    GetFile(String),
    PostFile(String),
}

/// The mathematical value of a route.
pub enum RouteView {
    GetRoot,
    GetEcho(Seq<char>),
    GetUserAgent,
    GetFile(Seq<char>),
    PostFile(Seq<char>),
}

impl View for HttpRequestType {
    type V = RouteView;

    open spec fn view(&self) -> RouteView {
        match self {
            HttpRequestType::GetRoot => RouteView::GetRoot,
            HttpRequestType::GetEcho(s) => RouteView::GetEcho(s@),
            HttpRequestType::GetUserAgent => RouteView::GetUserAgent,
            HttpRequestType::GetFile(s) => RouteView::GetFile(s@),
            HttpRequestType::PostFile(s) => RouteView::PostFile(s@),
        }
    }
}

/// The pieces of `s` between occurrences of `c`, in order; empty pieces included.
pub open spec fn split_on(s: Seq<char>, c: char) -> Seq<Seq<char>>
    decreases s.len(),
    via split_on_decreases
{
    match find_elem(s, c, 0) {
        None => seq![s],
        Some(i) => seq![s.take(i)] + split_on(s.skip(i + 1), c),
    }
}

#[via_fn]
proof fn split_on_decreases(s: Seq<char>, c: char) {
    lemma_find_elem(s, c, 0);
}

/// The route of a request, from its method and the `/`-separated segments of its target.
pub open spec fn classify(m: HttpMethod, target: Seq<char>) -> Option<RouteView> {
    let p = split_on(target, '/');
    match m {
        HttpMethod::Get => if p.len() == 2 && p[0].len() == 0 && p[1].len() == 0 {
            Some(RouteView::GetRoot)
        } else if p.len() == 3 && p[0].len() == 0 && p[1] == "echo"@ {
            Some(RouteView::GetEcho(p[2]))
        } else if p.len() == 2 && p[0].len() == 0 && p[1] == "user-agent"@ {
            Some(RouteView::GetUserAgent)
        } else if p.len() == 3 && p[0].len() == 0 && p[1] == "files"@ {
            Some(RouteView::GetFile(p[2]))
        } else {
            None
        },
        HttpMethod::Post => if p.len() == 3 && p[0].len() == 0 && p[1] == "files"@ {
            Some(RouteView::PostFile(p[2]))
        } else {
            None
        },
    }
}

pub open spec fn route_option_view(r: Option<HttpRequestType>) -> Option<RouteView> {
    match r {
        Some(t) => Some(t@),
        None => None,
    }
}

/// Relies on str::split with a char pattern, collected by itertools' collect_vec: the
/// pieces of `s` between the occurrences of `c`, in order, empty pieces included.
#[verifier::external_body]
fn split_segments(s: &str, c: char) -> (r: Vec<String>)
    ensures
        r@.map_values(|p: String| p@) == split_on(s@, c),
{
    s.split(c).map(|p| p.to_owned()).collect_vec()
}

/// A target with no `/` beyond the two that delimit `name` is split into its text
/// verbatim: no decoding, no normalising.
pub proof fn lemma_segments(name: Seq<char>, x: Seq<char>)
    requires
        find_elem(name, '/', 0) is None,
        find_elem(x, '/', 0) is None,
    ensures
        split_on(seq!['/'] + name + seq!['/'] + x, '/') == seq![Seq::<char>::empty(), name, x],
{
    let t = seq!['/'] + name + seq!['/'] + x;
    lemma_find_elem(name, '/', 0);
    lemma_find_elem(x, '/', 0);
    assert(find_elem(t, '/', 0) == Some(0int));
    let t1 = t.skip(1);
    assert(t1 =~= name + seq!['/'] + x);
    assert(t1[name.len() as int] == '/');
    assert forall|j: int| 0 <= j < name.len() implies t1[j] != '/' by {
        assert(t1[j] == name[j]);
    }
    lemma_find_elem(t1, '/', 0);
    assert(find_elem(t1, '/', 0) == Some(name.len() as int)) by {
        let k = name.len() as int;
        let f = find_elem(t1, '/', 0);
        assert(f is Some);
        let i = f->Some_0;
        if i < k {
            assert(t1[i] != '/');
        }
        if i > k {
            assert(t1[k] == '/');
        }
    }
    let t2 = t1.skip(name.len() + 1 as int);
    assert(t2 =~= x);
    assert(t.take(0) =~= Seq::<char>::empty());
    assert(t1.take(name.len() as int) =~= name);
    assert(split_on(t2, '/') == seq![x]);
    assert(split_on(t1, '/') =~= seq![name, x]);
    assert(split_on(t, '/') =~= seq![Seq::<char>::empty(), name, x]);
}

/// A segment after `/echo/` or `/files/` is routed verbatim: the route carries the
/// text of the target's last segment, undecoded.
pub proof fn lemma_named_routes(x: Seq<char>)
    requires
        find_elem(x, '/', 0) is None,
    ensures
        classify(HttpMethod::Get, "/echo/"@ + x) == Some(RouteView::GetEcho(x)),
        classify(HttpMethod::Get, "/files/"@ + x) == Some(RouteView::GetFile(x)),
        classify(HttpMethod::Post, "/files/"@ + x) == Some(RouteView::PostFile(x)),
        classify(HttpMethod::Post, "/echo/"@ + x) is None,
{
    reveal_strlit("/echo/");
    reveal_strlit("/files/");
    reveal_strlit("echo");
    reveal_strlit("files");
    reveal_strlit("user-agent");
    let echo = "echo"@;
    let files = "files"@;
    assert(find_elem(echo, '/', 0) is None) by {
        lemma_find_elem(echo, '/', 0);
        if find_elem(echo, '/', 0) is Some {
            let i = find_elem(echo, '/', 0)->Some_0;
            assert(echo[i] == '/');
        }
    }
    assert(find_elem(files, '/', 0) is None) by {
        lemma_find_elem(files, '/', 0);
        if find_elem(files, '/', 0) is Some {
            let i = find_elem(files, '/', 0)->Some_0;
            assert(files[i] == '/');
        }
    }
    assert("/echo/"@ + x =~= seq!['/'] + echo + seq!['/'] + x);
    assert("/files/"@ + x =~= seq!['/'] + files + seq!['/'] + x);
    lemma_segments(echo, x);
    lemma_segments(files, x);
    assert(echo != "user-agent"@ && files != "user-agent"@ && echo != files);
}

impl HttpRequestType {
    /// The route for a method and request target; `None` where no route matches.
    pub fn try_new(http_method: &HttpMethod, request_target: &str) -> (r: Option<HttpRequestType>)
        ensures
            route_option_view(r) == classify(*http_method, request_target@),
    {
        let parts = split_segments(request_target, '/');
        let ghost p = split_on(request_target@, '/');
        assert(parts@.len() == p.len());
        assert(forall|i: int| 0 <= i < p.len() ==> #[trigger] p[i] == parts@[i]@);
        let n = parts.len();
        match http_method {
            HttpMethod::Get => {
                if n == 2 && parts[0].as_str().unicode_len() == 0 && parts[1].as_str().unicode_len() == 0 {
                    Some(HttpRequestType::GetRoot)
                } else if n == 3 && parts[0].as_str().unicode_len() == 0 && str_eq(parts[1].as_str(), "echo") {
                    Some(HttpRequestType::GetEcho(parts[2].clone()))
                } else if n == 2 && parts[0].as_str().unicode_len() == 0 && str_eq(parts[1].as_str(), "user-agent") {
                    Some(HttpRequestType::GetUserAgent)
                } else if n == 3 && parts[0].as_str().unicode_len() == 0 && str_eq(parts[1].as_str(), "files") {
                    Some(HttpRequestType::GetFile(parts[2].clone()))
                } else {
                    None
                }
            },
            HttpMethod::Post => {
                if n == 3 && parts[0].as_str().unicode_len() == 0 && str_eq(parts[1].as_str(), "files") {
                    Some(HttpRequestType::PostFile(parts[2].clone()))
                } else {
                    None
                }
            },
        }
    }
}

} // verus!
