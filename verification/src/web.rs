//! The embedded web console: which request paths name an asset, how long
//! an asset may be cached, and whether a client wants HTML.
use vstd::prelude::*;
use vstd::string::StringSliceAdditionalSpecFns;
use vstd::utf8::decode_utf8;
use crate::bindings::{percent_decode_bytes, percent_decode_utf8};
use crate::files::split_pieces;
use crate::text::{
    chars_eq_str, chars_of, contains_char, find_char, has_prefix_str, lemma_find_from_bounds,
    slice_chars, string_from_chars, trim_bounds, trim_start,
};

verus! {

/// Whether `path` lies under the content-hashed `assets/` directory.
pub open spec fn hashed_asset(path: Seq<char>) -> bool {
    "assets/"@.is_prefix_of(path)
}

/// Cache policy: files under `assets/` carry a content hash in their name
/// and may be cached forever; everything else (index.html and other root
/// files) must revalidate so that a new deployment is picked up.
pub fn web_asset_cache_control(path: &str) -> (r: &'static str)
    ensures
        hashed_asset(path@) ==> r@ == "public, max-age=31536000, immutable"@,
        !hashed_asset(path@) ==> r@ == "no-cache"@,
{
    let v = chars_of(path);
    if has_prefix_str(&v, "assets/") {
        "public, max-age=31536000, immutable"
    } else {
        "no-cache"
    }
}

// ------------------------------------------------------------ Accept header

/// Whether some entry of an `Accept` value starts with `text/html` once
/// leading whitespace is dropped.
pub open spec fn accept_lists_html(accept: Seq<char>) -> bool {
    exists|k: int|
        0 <= k < split_pieces(accept, ',').len() && "text/html"@.is_prefix_of(
            trim_start(#[trigger] split_pieces(accept, ',')[k]),
        )
}

fn starts_html(piece: &Vec<char>) -> (b: bool)
    ensures
        b == "text/html"@.is_prefix_of(trim_start(piece@)),
{
    let (a, _) = trim_bounds(piece);
    let rest = slice_chars(piece, a, piece.len());
    assert(rest@ =~= trim_start(piece@));
    has_prefix_str(&rest, "text/html")
}

fn any_piece_html(s: &Vec<char>) -> (r: bool)
    ensures
        r == accept_lists_html(s@),
    decreases s@.len(),
{
    let i = find_char(s, ',');
    proof {
        lemma_find_from_bounds(s@, ',', 0);
    }
    let ghost pieces = split_pieces(s@, ',');
    if i < s.len() {
        let head = slice_chars(s, 0, i);
        let rest = slice_chars(s, i + 1, s.len());
        assert(head@ =~= s@.take(i as int));
        assert(rest@ =~= s@.skip(i + 1));
        assert(pieces =~= seq![s@.take(i as int)] + split_pieces(s@.skip(i + 1), ','));
        if starts_html(&head) {
            assert("text/html"@.is_prefix_of(trim_start(pieces[0])));
            return true;
        }
        let r = any_piece_html(&rest);
        proof {
            let tail = split_pieces(s@.skip(i + 1), ',');
            if r {
                let k = choose|k: int|
                    0 <= k < tail.len() && "text/html"@.is_prefix_of(trim_start(#[trigger] tail[k]));
                assert(pieces[k + 1] == tail[k]);
            } else {
                assert forall|k: int| 0 <= k < pieces.len() implies !"text/html"@.is_prefix_of(
                    trim_start(#[trigger] pieces[k]),
                ) by {
                    if k > 0 {
                        assert(pieces[k] == tail[k - 1]);
                    }
                }
            }
        }
        r
    } else {
        assert(pieces =~= seq![s@]);
        let r = starts_html(s);
        proof {
            if r {
                assert("text/html"@.is_prefix_of(trim_start(pieces[0])));
            }
        }
        r
    }
}

/// Whether the client accepts HTML, from its `Accept` header (`None` when
/// the header is absent or not visible ASCII).
pub fn accepts_html(accept: Option<&str>) -> (b: bool)
    ensures
        b == (accept matches Some(a) && accept_lists_html(a@)),
{
    match accept {
        None => false,
        Some(a) => {
            let v = chars_of(a);
            any_piece_html(&v)
        },
    }
}

// ------------------------------------------------------------- asset paths

/// Number of leading `/` characters.
pub open spec fn leading_slashes(s: Seq<char>) -> nat
    decreases s.len(),
{
    if s.len() > 0 && s[0] == '/' {
        1 + leading_slashes(s.drop_first())
    } else {
        0
    }
}

/// `str::trim_start_matches('/')`.
pub open spec fn trim_leading_slashes(s: Seq<char>) -> Seq<char> {
    s.skip(leading_slashes(s) as int)
}

/// Whether a path segment is `..`.
pub open spec fn has_parent_segment(segs: Seq<Seq<char>>) -> bool {
    exists|k: int| 0 <= k < segs.len() && #[trigger] segs[k] == ".."@
}

/// The segments that name something (not empty, not `.`), joined by `/`.
pub open spec fn join_normal(segs: Seq<Seq<char>>) -> Seq<char>
    decreases segs.len(),
{
    if segs.len() == 0 {
        Seq::empty()
    } else {
        let rest = join_normal(segs.drop_first());
        let s = segs[0];
        if s.len() == 0 || s == "."@ {
            rest
        } else if rest.len() == 0 {
            s
        } else {
            s + "/"@ + rest
        }
    }
}

/// The asset a decoded request path names: leading slashes dropped, and
/// refused when empty, when it holds a backslash, when it starts with a
/// `.` segment or when any segment is `..`; otherwise its segments that
/// name something, joined by `/`.
pub open spec fn asset_path(decoded: Seq<char>) -> Option<Seq<char>> {
    let d = trim_leading_slashes(decoded);
    let segs = split_pieces(d, '/');
    if d.len() == 0 || d.contains('\\') || segs[0] == "."@ || has_parent_segment(segs) {
        None
    } else {
        Some(join_normal(segs))
    }
}

/// The asset an encoded request path names, after percent-decoding; `None`
/// when the decoded bytes are not UTF-8.
pub open spec fn web_asset_path(request_path: Seq<u8>) -> Option<Seq<char>> {
    let bytes = percent_decode_bytes(request_path);
    if valid_utf8_bytes(bytes) {
        asset_path(decode_utf8(bytes))
    } else {
        None
    }
}

pub open spec fn valid_utf8_bytes(bytes: Seq<u8>) -> bool {
    vstd::utf8::valid_utf8(bytes)
}

proof fn lemma_split_pieces_nonempty(s: Seq<char>, c: char)
    ensures
        split_pieces(s, c).len() >= 1,
    decreases s.len(),
{
    lemma_find_from_bounds(s, c, 0);
}

/// Whether the segments of `s` are free of `..`, and the normal ones
/// joined by `/`.
fn normal_segments(s: &Vec<char>) -> (r: (bool, Vec<char>))
    ensures
        r.0 == !has_parent_segment(split_pieces(s@, '/')),
        r.1@ == join_normal(split_pieces(s@, '/')),
    decreases s@.len(),
{
    let i = find_char(s, '/');
    proof {
        lemma_find_from_bounds(s@, '/', 0);
    }
    let ghost pieces = split_pieces(s@, '/');
    let (head, rest_result) = if i < s.len() {
        let head = slice_chars(s, 0, i);
        let rest = slice_chars(s, i + 1, s.len());
        assert(head@ =~= s@.take(i as int));
        assert(rest@ =~= s@.skip(i + 1));
        assert(pieces =~= seq![s@.take(i as int)] + split_pieces(s@.skip(i + 1), '/'));
        let rr = normal_segments(&rest);
        proof {
            let tail = split_pieces(s@.skip(i + 1), '/');
            assert(pieces.drop_first() =~= tail);
            if has_parent_segment(tail) {
                let k = choose|k: int| 0 <= k < tail.len() && #[trigger] tail[k] == ".."@;
                assert(pieces[k + 1] == tail[k]);
            }
            if pieces[0] != ".."@ && !has_parent_segment(tail) {
                assert forall|k: int| 0 <= k < pieces.len() implies #[trigger] pieces[k] != ".."@ by {
                    if k > 0 {
                        assert(pieces[k] == tail[k - 1]);
                    }
                }
            }
        }
        (head, rr)
    } else {
        let head = slice_chars(s, 0, s.len());
        assert(head@ =~= s@);
        assert(pieces =~= seq![s@]);
        assert(pieces.drop_first() =~= Seq::<Seq<char>>::empty());
        (head, (true, Vec::new()))
    };
    assert(head@ == pieces[0]);
    let (rest_ok, rest_joined) = rest_result;
    assert(rest_joined@ == join_normal(pieces.drop_first()));
    let is_parent = chars_eq_str(&head, "..");
    let ok = rest_ok && !is_parent;
    proof {
        if is_parent {
            assert(pieces[0] == ".."@);
        }
    }
    if head.len() == 0 || chars_eq_str(&head, ".") {
        (ok, rest_joined)
    } else if rest_joined.len() == 0 {
        (ok, head)
    } else {
        let mut joined = head;
        joined.push('/');
        let mut k: usize = 0;
        let ghost base = joined@;
        while k < rest_joined.len()
            invariant
                k <= rest_joined@.len(),
                joined@ == base + rest_joined@.take(k as int),
            decreases rest_joined.len() - k,
        {
            joined.push(rest_joined[k]);
            k = k + 1;
            assert(joined@ =~= base + rest_joined@.take(k as int));
        }
        assert(rest_joined@.take(rest_joined@.len() as int) =~= rest_joined@);
        proof {
            reveal_strlit("/");
        }
        assert(base =~= pieces[0] + "/"@);
        (ok, joined)
    }
}

/// The asset path named by a request path: percent-decoded, relative,
/// with no `..` segment and no backslash. `None` when the path names no
/// asset.
pub fn normalize_web_asset_path(request_path: &str) -> (r: Option<String>)
    ensures
        match web_asset_path(request_path.spec_bytes()) {
            None => r is None,
            Some(p) => r matches Some(s) && s@ == p,
        },
{
    let decoded = match percent_decode_utf8(request_path) {
        Some(d) => d,
        None => return None,
    };
    let v = chars_of(decoded.as_str());
    let mut a: usize = 0;
    assert(v@.skip(0) =~= v@);
    while a < v.len() && v[a] == '/'
        invariant
            a <= v@.len(),
            leading_slashes(v@) == a + leading_slashes(v@.skip(a as int)),
        decreases v.len() - a,
    {
        assert(v@.skip(a as int).drop_first() =~= v@.skip(a + 1));
        a = a + 1;
    }
    let d = slice_chars(&v, a, v.len());
    assert(d@ =~= trim_leading_slashes(v@));
    if d.len() == 0 || contains_char(&d, '\\') {
        return None;
    }
    proof {
        lemma_split_pieces_nonempty(d@, '/');
    }
    let first_end = find_char(&d, '/');
    proof {
        lemma_find_from_bounds(d@, '/', 0);
        if first_end < d@.len() {
            assert(split_pieces(d@, '/') =~= seq![d@.take(first_end as int)] + split_pieces(
                d@.skip(first_end + 1),
                '/',
            ));
        } else {
            assert(d@.take(first_end as int) =~= d@);
        }
    }
    let first = slice_chars(&d, 0, first_end);
    assert(first@ =~= split_pieces(d@, '/')[0]);
    if chars_eq_str(&first, ".") {
        return None;
    }
    let (ok, joined) = normal_segments(&d);
    if !ok {
        return None;
    }
    Some(string_from_chars(&joined))
}


// -------------------------------------------------------- answering assets

/// How a found asset is answered.
#[derive(Debug, Clone)]
pub enum AssetResponsePlan {
    /// `304 Not Modified`, with the entity tag and the cache policy.
    NotModified { etag: String, cache_control: &'static str },
    /// `200 OK`, with the registered content type of the path, the entity
    /// tag and the cache policy; the bytes follow unless `send_body` is off
    /// (a `HEAD` request).
    Full { content_type: String, etag: String, cache_control: &'static str, send_body: bool },
}

/// The cache policy of an asset path.
pub open spec fn cache_policy(path: Seq<char>) -> Seq<char> {
    if hashed_asset(path) {
        "public, max-age=31536000, immutable"@
    } else {
        "no-cache"@
    }
}

/// How the asset at `path`, whose bytes have the entity tag `etag`, is
/// answered: `304` when `If-None-Match` names the tag, otherwise `200`
/// with its content type, the bytes being left out of a `HEAD` answer.
pub fn asset_response_plan(path: &str, etag: String, if_none_match: Option<&str>, head_only: bool) -> (r: AssetResponsePlan)
    ensures
        match if_none_match {
            Some(v) if crate::files::none_match(v@, etag@) => r matches AssetResponsePlan::NotModified {
                etag: t,
                cache_control: c,
            } && t@ == etag@ && c@ == cache_policy(path@),
            _ => r matches AssetResponsePlan::Full { content_type: m, etag: t, cache_control: c, send_body: b } && {
                &&& m@ == crate::files::registered_mime_for_path(path@)
                &&& t@ == etag@
                &&& c@ == cache_policy(path@)
                &&& b == !head_only
            },
        },
{
    let cache_control = web_asset_cache_control(path);
    let fresh = match if_none_match {
        Some(v) => crate::files::if_none_match_matches(v, etag.as_str()),
        None => false,
    };
    if fresh {
        AssetResponsePlan::NotModified { etag, cache_control }
    } else {
        AssetResponsePlan::Full {
            content_type: crate::files::registered_mime_by_path(path),
            etag,
            cache_control,
            send_body: !head_only,
        }
    }
}

// ------------------------------------------------- requests no route took

/// One step in answering a request that no API route took. The steps are
/// tried in order: an asset step answers with the asset when it exists and
/// otherwise passes to the next step; the other steps answer.
#[derive(Debug, Clone, PartialEq, Eq)]
pub enum WebFallbackStep {
    /// Serve this asset path, when the distribution has it.
    ServeAsset(String),
    /// The built-in sign-in page.
    LoginPage,
    /// `302 Found` to `/login`.
    RedirectToLogin,
    /// `404 Not Found`.
    NotFound,
}

/// A fallback step, with the asset path as characters.
pub enum WebFallbackStepView {
    ServeAsset(Seq<char>),
    LoginPage,
    RedirectToLogin,
    NotFound,
}

impl View for WebFallbackStep {
    type V = WebFallbackStepView;

    open spec fn view(&self) -> WebFallbackStepView {
        match self {
            WebFallbackStep::ServeAsset(p) => WebFallbackStepView::ServeAsset(p@),
            WebFallbackStep::LoginPage => WebFallbackStepView::LoginPage,
            WebFallbackStep::RedirectToLogin => WebFallbackStepView::RedirectToLogin,
            WebFallbackStep::NotFound => WebFallbackStepView::NotFound,
        }
    }
}

/// The steps for a request with URI path `uri_path`: only `GET` and `HEAD`
/// reach the console. `/login` is the console's index page, or the built-in
/// sign-in page when the distribution has none. Another path is first
/// looked up as an asset; then a browser asking for HTML gets the console's
/// index page, unless the server signs users in with OIDC and the request
/// carries no valid session, which is sent to `/login`. Everything else is
/// `404`.
pub open spec fn fallback_steps(
    get_or_head: bool,
    uri_path: Seq<char>,
    accept: Option<Seq<char>>,
    oidc_mode: bool,
    session_valid: bool,
) -> Seq<WebFallbackStepView> {
    let p = trim_leading_slashes(uri_path);
    if !get_or_head {
        seq![WebFallbackStepView::NotFound]
    } else if p == "login"@ {
        seq![WebFallbackStepView::ServeAsset("index.html"@), WebFallbackStepView::LoginPage]
    } else {
        let asset = if p.len() > 0 {
            seq![WebFallbackStepView::ServeAsset(p)]
        } else {
            Seq::empty()
        };
        let html = accept matches Some(a) && accept_lists_html(a);
        let rest = if html && oidc_mode && !session_valid {
            seq![WebFallbackStepView::RedirectToLogin]
        } else if html {
            seq![WebFallbackStepView::ServeAsset("index.html"@), WebFallbackStepView::NotFound]
        } else {
            seq![WebFallbackStepView::NotFound]
        };
        asset + rest
    }
}

fn trim_slashes_chars(v: &Vec<char>) -> (r: Vec<char>)
    ensures
        r@ == trim_leading_slashes(v@),
{
    let mut a: usize = 0;
    assert(v@.skip(0) =~= v@);
    while a < v.len() && v[a] == '/'
        invariant
            a <= v@.len(),
            leading_slashes(v@) == a + leading_slashes(v@.skip(a as int)),
        decreases v.len() - a,
    {
        assert(v@.skip(a as int).drop_first() =~= v@.skip(a + 1));
        a = a + 1;
    }
    let d = slice_chars(v, a, v.len());
    assert(d@ =~= trim_leading_slashes(v@));
    d
}

/// The steps that answer a request no API route took, from whether it is a
/// `GET` or `HEAD`, its URI path, its `Accept` header, whether the server
/// signs users in with OIDC, and whether the request's session is valid.
pub fn web_fallback_steps(
    get_or_head: bool,
    uri_path: &str,
    accept: Option<&str>,
    oidc_mode: bool,
    session_valid: bool,
) -> (r: Vec<WebFallbackStep>)
    ensures
        r@.map_values(|s: WebFallbackStep| s@) == fallback_steps(
            get_or_head,
            uri_path@,
            match accept {
                Some(a) => Some(a@),
                None => None,
            },
            oidc_mode,
            session_valid,
        ),
{
    let mut steps: Vec<WebFallbackStep> = Vec::new();
    if !get_or_head {
        steps.push(WebFallbackStep::NotFound);
        proof {
            assert(steps@.map_values(|s: WebFallbackStep| s@) =~= seq![WebFallbackStepView::NotFound]);
        }
        return steps;
    }
    let v = chars_of(uri_path);
    let p = trim_slashes_chars(&v);
    if chars_eq_str(&p, "login") {
        steps.push(WebFallbackStep::ServeAsset(String::from_str("index.html")));
        steps.push(WebFallbackStep::LoginPage);
        proof {
            assert(steps@.map_values(|s: WebFallbackStep| s@) =~= seq![
                WebFallbackStepView::ServeAsset("index.html"@),
                WebFallbackStepView::LoginPage,
            ]);
        }
        return steps;
    }
    let ghost asset: Seq<WebFallbackStepView> = if p@.len() > 0 {
        seq![WebFallbackStepView::ServeAsset(p@)]
    } else {
        Seq::empty()
    };
    if p.len() > 0 {
        steps.push(WebFallbackStep::ServeAsset(string_from_chars(&p)));
    }
    assert(steps@.map_values(|s: WebFallbackStep| s@) =~= asset);
    let html = accepts_html(accept);
    let ghost before = steps@;
    if html && oidc_mode && !session_valid {
        steps.push(WebFallbackStep::RedirectToLogin);
    } else if html {
        steps.push(WebFallbackStep::ServeAsset(String::from_str("index.html")));
        steps.push(WebFallbackStep::NotFound);
    } else {
        steps.push(WebFallbackStep::NotFound);
    }
    proof {
        let rest = if html && oidc_mode && !session_valid {
            seq![WebFallbackStepView::RedirectToLogin]
        } else if html {
            seq![WebFallbackStepView::ServeAsset("index.html"@), WebFallbackStepView::NotFound]
        } else {
            seq![WebFallbackStepView::NotFound]
        };
        assert(steps@.map_values(|s: WebFallbackStep| s@) =~= asset + rest);
    }
    steps
}

// ------------------------------------------------------------------ laws

/// The segments that name something, in order.
pub open spec fn normal_only(segs: Seq<Seq<char>>) -> Seq<Seq<char>>
    decreases segs.len(),
{
    if segs.len() == 0 {
        segs
    } else if segs[0].len() == 0 || segs[0] == "."@ {
        normal_only(segs.drop_first())
    } else {
        seq![segs[0]] + normal_only(segs.drop_first())
    }
}

proof fn lemma_split_pieces_no_sep(s: Seq<char>, c: char)
    ensures
        forall|k: int| 0 <= k < split_pieces(s, c).len() ==> !(#[trigger] split_pieces(s, c)[k]).contains(c),
    decreases s.len(),
{
    lemma_find_from_bounds(s, c, 0);
    let i = crate::text::find_from(s, c, 0);
    if i < s.len() {
        lemma_split_pieces_no_sep(s.skip(i + 1), c);
        let tail = split_pieces(s.skip(i + 1), c);
        let all = split_pieces(s, c);
        assert(all =~= seq![s.take(i)] + tail);
        assert forall|k: int| 0 <= k < all.len() implies !(#[trigger] all[k]).contains(c) by {
            if k == 0 {
                assert forall|j: int| 0 <= j < s.take(i).len() implies s.take(i)[j] != c by {
                    assert(s.take(i)[j] == s[j]);
                }
            } else {
                assert(all[k] == tail[k - 1]);
            }
        }
    } else {
        assert(split_pieces(s, c) =~= seq![s]);
        assert forall|j: int| 0 <= j < s.len() implies s[j] != c by {}
    }
}

proof fn lemma_join_normal_of_normal(segs: Seq<Seq<char>>)
    ensures
        join_normal(segs) == join_normal(normal_only(segs)),
        forall|k: int| 0 <= k < normal_only(segs).len() ==> segs.contains(#[trigger] normal_only(segs)[k])
            && normal_only(segs)[k].len() > 0 && normal_only(segs)[k] != "."@,
    decreases segs.len(),
{
    if segs.len() > 0 {
        let rest = segs.drop_first();
        lemma_join_normal_of_normal(rest);
        let n = normal_only(segs);
        let nr = normal_only(rest);
        if !(segs[0].len() == 0 || segs[0] == "."@) {
            assert((seq![segs[0]] + nr).drop_first() =~= nr);
            assert((seq![segs[0]] + nr)[0] == segs[0]);
        }
        assert forall|k: int| 0 <= k < n.len() implies segs.contains(#[trigger] n[k]) && n[k].len() > 0
            && n[k] != "."@ by {
            if segs[0].len() == 0 || segs[0] == "."@ {
                let w = choose|w: int| 0 <= w < rest.len() && rest[w] == nr[k];
                assert(segs[w + 1] == rest[w]);
            } else if k == 0 {
                assert(segs[0] == n[0]);
            } else {
                assert(n[k] == nr[k - 1]);
                let w = choose|w: int| 0 <= w < rest.len() && rest[w] == nr[k - 1];
                assert(segs[w + 1] == rest[w]);
            }
        }
    }
}

proof fn lemma_find_after_prefix(a: Seq<char>, b: Seq<char>)
    requires
        !a.contains('/'),
    ensures
        crate::text::find_from(a + "/"@ + b, '/', 0) == a.len(),
{
    reveal_strlit("/");
    let s = a + "/"@ + b;
    lemma_find_from_bounds(s, '/', 0);
    let i = crate::text::find_from(s, '/', 0);
    assert(s[a.len() as int] == '/');
    if i < a.len() {
        assert(s[i] == a[i]);
    }
}

proof fn lemma_split_join(l: Seq<Seq<char>>)
    requires
        l.len() > 0,
        forall|k: int| 0 <= k < l.len() ==> (#[trigger] l[k]).len() > 0 && !l[k].contains('/') && l[k] != "."@,
    ensures
        split_pieces(join_normal(l), '/') == l,
    decreases l.len(),
{
    reveal_strlit("/");
    let rest = l.drop_first();
    if l.len() == 1 {
        assert(rest =~= Seq::<Seq<char>>::empty());
        assert(join_normal(rest) =~= Seq::<char>::empty());
        assert(join_normal(l) == l[0]);
        lemma_find_from_bounds(l[0], '/', 0);
        if crate::text::find_from(l[0], '/', 0) < l[0].len() {
            assert(l[0].contains('/'));
        }
        assert(split_pieces(l[0], '/') =~= seq![l[0]]);
        assert(l =~= seq![l[0]]);
    } else {
        lemma_split_join(rest);
        let j = join_normal(rest);
        if j.len() == 0 {
            lemma_find_from_bounds(j, '/', 0);
            assert(split_pieces(j, '/') =~= seq![j]);
            assert(rest[0] == j);
        }
        let whole = l[0] + "/"@ + j;
        assert(join_normal(l) == whole);
        lemma_find_after_prefix(l[0], j);
        assert(whole.take(l[0].len() as int) =~= l[0]);
        assert(whole.skip(l[0].len() as int + 1) =~= j);
        assert(split_pieces(whole, '/') =~= seq![l[0]] + split_pieces(j, '/'));
        assert(l =~= seq![l[0]] + rest);
    }
}

/// A request path names at most an asset inside the distribution
/// directory: every `/`-separated segment of the resolved path is one of
/// the request's own segments, and none is empty, `.` or `..`.
pub proof fn asset_paths_stay_inside_the_distribution(decoded: Seq<char>)
    ensures
        asset_path(decoded) matches Some(p) ==> {
            &&& p.len() > 0
            &&& forall|k: int|
                0 <= k < split_pieces(p, '/').len() ==> {
                    let seg = #[trigger] split_pieces(p, '/')[k];
                    &&& split_pieces(trim_leading_slashes(decoded), '/').contains(seg)
                    &&& seg.len() > 0
                    &&& seg != "."@
                    &&& seg != ".."@
                }
        },
{
    let d = trim_leading_slashes(decoded);
    let segs = split_pieces(d, '/');
    if let Some(p) = asset_path(decoded) {
        lemma_split_pieces_no_sep(d, '/');
        lemma_join_normal_of_normal(segs);
        let n = normal_only(segs);
        lemma_split_pieces_nonempty(d, '/');
        assert(segs[0].len() > 0 && segs[0] != "."@) by {
            lemma_find_from_bounds(d, '/', 0);
            let i = crate::text::find_from(d, '/', 0);
            if i < d.len() {
                assert(segs =~= seq![d.take(i)] + split_pieces(d.skip(i + 1), '/'));
            } else {
                assert(segs =~= seq![d]);
            }
            lemma_leading_slashes_stop(decoded);
            if i == 0 {
                assert(d[0] == '/');
            }
        }
        assert(n.len() > 0 && n[0] == segs[0]) by {
            assert(n =~= seq![segs[0]] + normal_only(segs.drop_first()));
        }
        assert forall|k: int| 0 <= k < n.len() implies (#[trigger] n[k]).len() > 0 && !n[k].contains('/')
            && n[k] != "."@ by {
            let w = choose|w: int| 0 <= w < segs.len() && segs[w] == n[k];
            assert(!segs[w].contains('/'));
        }
        lemma_split_join(n);
        assert(p == join_normal(n));
        assert forall|k: int| 0 <= k < split_pieces(p, '/').len() implies {
            let seg = #[trigger] split_pieces(p, '/')[k];
            &&& segs.contains(seg)
            &&& seg.len() > 0
            &&& seg != "."@
            &&& seg != ".."@
        } by {
            let seg = split_pieces(p, '/')[k];
            assert(seg == n[k]);
            let w = choose|w: int| 0 <= w < segs.len() && segs[w] == n[k];
            assert(segs[w] != ".."@);
        }
        if p.len() == 0 {
            lemma_find_from_bounds(p, '/', 0);
            assert(split_pieces(p, '/') =~= seq![p]);
        }
    }
}

proof fn lemma_leading_slashes_stop(s: Seq<char>)
    ensures
        leading_slashes(s) <= s.len(),
        leading_slashes(s) < s.len() ==> s[leading_slashes(s) as int] != '/',
    decreases s.len(),
{
    if s.len() > 0 && s[0] == '/' {
        lemma_leading_slashes_stop(s.drop_first());
        if leading_slashes(s) < s.len() {
            assert(s[leading_slashes(s) as int] == s.drop_first()[leading_slashes(s.drop_first()) as int]);
        }
    }
}

} // verus!
