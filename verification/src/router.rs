//! Where a request goes, which files a page may ask for, and how the server is started.

use vstd::prelude::*;

use crate::httpsrv::{Reply, Request, Response};
use crate::json::Json;
use crate::text::{
    concat, concat3, contains, parse_unsigned, same, strip_end, strip_prefix, strip_start,
};

verus! {

/// What a request asks for.
#[derive(Debug)]
pub enum Route<S, J> {
    /// An event for every page, where the body is one, and then an empty answer.
    Emit(Option<(S, J)>),
    /// The stream of events.
    Events,
    /// A command with its parameters.
    Command { name: S, body: J },
    /// A file below the root of the pages.
    File(S),
    NotFound,
}

/// A route as it is carried.
pub type TextRoute = Route<String, Json>;

/// A route as contracts speak of it.
pub type RouteView = Route<Seq<char>, crate::json::JsonView>;

/// What a route is.
pub open spec fn route_view(r: TextRoute) -> RouteView {
    match r {
        Route::Emit(Some((event, payload))) => Route::Emit(Some((event@, payload@))),
        Route::Emit(None) => Route::Emit(None),
        Route::Events => Route::Events,
        Route::Command { name, body } => Route::Command { name: name@, body: body@ },
        Route::File(rel) => Route::File(rel@),
        Route::NotFound => Route::NotFound,
    }
}

/// The event that the value of a body announces: an event without a name has the empty one, and one
/// that carries nothing carries null. A body that is not JSON has no value.
pub open spec fn announced_event(
    value: Option<crate::json::JsonView>,
) -> Option<(Seq<char>, crate::json::JsonView)> {
    match value {
        Some(v) => Some(
            (
                match v.text_member("event"@) {
                    Some(event) => event,
                    None => Seq::empty(),
                },
                match v.member("payload"@) {
                    Some(payload) => payload,
                    None => crate::json::JsonView::Null,
                },
            ),
        ),
        None => None,
    }
}

/// The parameters in a body: none, where it is not JSON.
pub open spec fn parameters(value: Option<crate::json::JsonView>) -> crate::json::JsonView {
    match value {
        Some(v) => v,
        None => crate::json::object(Seq::empty()),
    }
}

/// The file that a path names, as a path below the root of the pages.
pub open spec fn file_of(path: Seq<char>) -> Option<Seq<char>> {
    let bare = crate::text::stripped_start(path, '/');
    if crate::text::occurs(path, ".."@) || crate::text::occurs(path, "\\"@) {
        None
    } else if path == "/"@ || path == "/index.html"@ {
        Some("index.html"@)
    } else if path == "/settings.html"@ || path == "/captcha.html"@ {
        Some(bare)
    } else if path == "/brand-icon.png"@ {
        Some("public/brand-icon.png"@)
    } else if crate::text::begins(bare, "src/"@) {
        Some(bare)
    } else {
        None
    }
}

/// Where a request goes, by the value of its body.
pub open spec fn route_with(
    method: Seq<char>,
    path: Seq<char>,
    value: Option<crate::json::JsonView>,
) -> RouteView {
    if method == "POST"@ && path == "/api/emit"@ {
        Route::Emit(announced_event(value))
    } else if method == "GET"@ && (path == "/api/events"@ || path == "/api/events/"@) {
        Route::Events
    } else if method == "POST"@ && crate::text::begins(path, "/api/"@) {
        Route::Command {
            name: crate::text::stripped_end(path.skip("/api/"@.len() as int), '/'),
            body: parameters(value),
        }
    } else if (method == "GET"@ || method == "HEAD"@) && file_of(path) is Some {
        Route::File(file_of(path)->0)
    } else {
        Route::NotFound
    }
}

/// Where a request goes.
pub open spec fn route_of(method: Seq<char>, path: Seq<char>, body: Seq<u8>) -> RouteView {
    route_with(method, path, crate::json::parsed_bytes(body))
}

/// The file that a path names, as a path below the root of the pages.
pub fn static_file(path: &str) -> (r: Option<String>)
    ensures
        match r {
            Some(rel) => file_of(path@) == Some(rel@),
            None => file_of(path@) is None,
        },
{
    if contains(path, "..") || contains(path, "\\") {
        return None;
    }
    if same(path, "/") || same(path, "/index.html") {
        return Some("index.html".to_owned());
    }
    let bare = strip_start(path, '/');
    if same(path, "/settings.html") || same(path, "/captcha.html") {
        return Some(bare);
    }
    if same(path, "/brand-icon.png") {
        return Some("public/brand-icon.png".to_owned());
    }
    if strip_prefix(bare.as_str(), "src/").is_some() {
        Some(bare)
    } else {
        None
    }
}

/// Decides where a request goes, by the value of its body.
pub fn route_value(method: &str, path: &str, value: Option<Json>) -> (r: TextRoute)
    ensures
        route_view(r) == route_with(method@, path@, crate::step::opt_json(value)),
{
    let post = same(method, "POST");
    let get = same(method, "GET");
    if post && same(path, "/api/emit") {
        return match value {
            Some(v) => {
                let event = match v.get_text("event") {
                    Some(event) => event.to_owned(),
                    None => String::new(),
                };
                let payload = match v.get("payload") {
                    Some(payload) => payload.copy(),
                    None => Json::Null,
                };
                Route::Emit(Some((event, payload)))
            },
            None => Route::Emit(None),
        };
    }
    if get && (same(path, "/api/events") || same(path, "/api/events/")) {
        return Route::Events;
    }
    if post {
        match strip_prefix(path, "/api/") {
            Some(cmd) => {
                let body = match value {
                    Some(v) => v,
                    None => {
                        let entries: Vec<(String, Json)> = Vec::new();
                        assert(crate::json::entry_views(entries@) =~= Seq::empty());
                        Json::Object(entries)
                    },
                };
                return Route::Command { name: strip_end(cmd.as_str(), '/'), body };
            },
            None => {},
        }
    }
    if get || same(method, "HEAD") {
        match static_file(path) {
            Some(rel) => {
                return Route::File(rel);
            },
            None => {},
        }
    }
    Route::NotFound
}

/// Decides where a request goes. The body is read of a `POST` request only.
pub fn route(req: &Request) -> (r: TextRoute)
    ensures
        route_view(r) == route_of(req.method@, req.path@, req.body@),
{
    let value = if same(req.method.as_str(), "POST") {
        Json::parse(req.body.as_slice())
    } else {
        None
    };
    route_value(req.method.as_str(), req.path.as_str(), value)
}

/// The reply to a request that nothing answers.
pub open spec fn not_found_response() -> crate::httpsrv::ResponseView {
    crate::httpsrv::text_response(404, "not found"@)
}

/// The reply to a request that nothing answers.
pub fn not_found() -> (r: Reply)
    ensures
        r matches Reply::Respond(resp) && resp@ == not_found_response(),
{
    Reply::respond(Response::text(404, "not found"))
}

/// The reply to an event that a page announced, which the page reads as an empty object.
pub fn emit_reply() -> (r: Reply)
    ensures
        r matches Reply::Respond(resp) && resp@ == crate::httpsrv::json_response(
            crate::httpsrv::ok_value(crate::json::object(Seq::empty())),
        ) && crate::httpsrv::carries(
            resp@.body,
            crate::httpsrv::ok_value(crate::json::object(Seq::empty())),
        ),
{
    let entries: Vec<(String, Json)> = Vec::new();
    proof {
        assert(crate::json::entry_views(entries@) =~= Seq::empty());
        crate::json::lemma_plain_object(
            Seq::empty(),
            (crate::json::reading_depth() - 2) as nat,
        );
    }
    Reply::respond(Response::json_ok(Json::Object(entries)))
}

/// The reply to a command, by what came of it. The page reads the value back, or the words of the
/// error as they are.
pub fn command_reply(result: Result<Json, String>) -> (r: Reply)
    ensures
        r matches Reply::Respond(resp) && resp@ == crate::httpsrv::json_response(
            match result {
                Ok(v) => crate::httpsrv::ok_value(v@),
                Err(e) => crate::httpsrv::err_value(e@),
            },
        ),
        r matches Reply::Respond(resp) && match result {
            Ok(v) => crate::json::plain(v@, (crate::json::reading_depth() - 1) as nat)
                ==> crate::httpsrv::carries(resp@.body, crate::httpsrv::ok_value(v@)),
            Err(e) => crate::httpsrv::carries(resp@.body, crate::httpsrv::err_value(e@)),
        },
{
    match result {
        Ok(v) => Reply::respond(Response::json_ok(v)),
        Err(e) => Reply::respond(Response::json_err(e.as_str())),
    }
}

/// The content type of a file by the extension of its name.
pub open spec fn content_type_of(ext: Option<Seq<char>>) -> Seq<char> {
    match ext {
        Some(e) => if e == "html"@ {
            "text/html; charset=utf-8"@
        } else if e == "js"@ || e == "mjs"@ {
            "text/javascript; charset=utf-8"@
        } else if e == "css"@ {
            "text/css; charset=utf-8"@
        } else if e == "png"@ {
            "image/png"@
        } else if e == "svg"@ {
            "image/svg+xml"@
        } else if e == "json"@ {
            "application/json"@
        } else {
            "application/octet-stream"@
        },
        None => "application/octet-stream"@,
    }
}

/// The content type of a file by the extension of its name.
pub fn content_type(ext: Option<&str>) -> (r: &'static str)
    ensures
        r@ == content_type_of(
            match ext {
                Some(e) => Some(e@),
                None => None,
            },
        ),
{
    match ext {
        Some(e) => if same(e, "html") {
            "text/html; charset=utf-8"
        } else if same(e, "js") || same(e, "mjs") {
            "text/javascript; charset=utf-8"
        } else if same(e, "css") {
            "text/css; charset=utf-8"
        } else if same(e, "png") {
            "image/png"
        } else if same(e, "svg") {
            "image/svg+xml"
        } else if same(e, "json") {
            "application/json"
        } else {
            "application/octet-stream"
        },
        None => "application/octet-stream",
    }
}

/// A file that was looked for below the root of the pages.
#[derive(Debug)]
pub struct FoundFile {
    /// The extension of its name.
    pub ext: Option<String>,
    /// Whether it lies below the root, all links resolved.
    pub inside_root: bool,
    /// Whether it is a file.
    pub is_file: bool,
    pub data: Vec<u8>,
}

/// The answer that carries a file, which no cache keeps.
pub open spec fn file_response(
    ext: Option<Seq<char>>,
    data: Seq<u8>,
) -> crate::httpsrv::ResponseView {
    crate::httpsrv::ResponseView {
        status: 200,
        content_type: content_type_of(ext),
        extra_headers: seq![("Cache-Control"@, "no-store"@)],
        body: data,
    }
}

/// The reply to a request for a file: the file where it was found, is one and lies below the root.
pub fn serve_static(found: Option<FoundFile>) -> (r: Reply)
    ensures
        r matches Reply::Respond(resp) && resp@ == match found {
            Some(f) => if f.inside_root && f.is_file {
                file_response(
                    match f.ext {
                        Some(e) => Some(e@),
                        None => None,
                    },
                    f.data@,
                )
            } else {
                not_found_response()
            },
            None => not_found_response(),
        },
{
    match found {
        Some(f) => {
            if !f.inside_root || !f.is_file {
                return not_found();
            }
            let ct = match &f.ext {
                Some(e) => content_type(Some(e.as_str())),
                None => content_type(None),
            };
            let mut resp = Response::bytes(200, ct, f.data);
            resp.set_header("Cache-Control", "no-store");
            proof {
                assert(resp@.extra_headers =~= seq![("Cache-Control"@, "no-store"@)]);
            }
            Reply::respond(resp)
        },
        None => not_found(),
    }
}

// Start.

/// The texts of some strings.
pub open spec fn texts(v: Seq<String>) -> Seq<Seq<char>> {
    Seq::new(v.len(), |i: int| v[i]@)
}

/// The argument behind the first that is `name`.
pub open spec fn flag_of(args: Seq<Seq<char>>, name: Seq<char>) -> Option<Seq<char>>
    decreases args.len(),
{
    if args.len() == 0 {
        None
    } else if args[0] == name {
        if args.len() > 1 {
            Some(args[1])
        } else {
            None
        }
    } else {
        flag_of(args.skip(1), name)
    }
}

/// The argument behind the first that is `name`.
pub fn flag(args: &Vec<String>, name: &str) -> (r: Option<String>)
    ensures
        match r {
            Some(v) => flag_of(texts(args@), name@) == Some(v@),
            None => flag_of(texts(args@), name@) is None,
        },
{
    let ghost all = texts(args@);
    let mut i: usize = 0;
    assert(all.skip(0) =~= all);
    while i < args.len()
        invariant
            i <= args@.len(),
            all == texts(args@),
            flag_of(all.skip(i as int), name@) == flag_of(all, name@),
        decreases args@.len() - i,
    {
        assert(all.skip(i as int)[0] == args@[i as int]@);
        assert(all.skip(i as int).skip(1) =~= all.skip(i + 1));
        if same(args[i].as_str(), name) {
            if args.len() - i > 1 {
                assert(all.skip(i as int)[1] == args@[i + 1]@);
                return Some(args[i + 1].clone());
            }
            return None;
        }
        i = i + 1;
    }
    None
}

/// The port that is listened on where the arguments name none.
pub const DEFAULT_PORT: u16 = 8790;

/// The port that the arguments name, or the usual one where they name none that is a port.
pub open spec fn port_of(args: Seq<Seq<char>>) -> int {
    match flag_of(args, "--port"@) {
        Some(p) => match crate::text::unsigned(p) {
            Some(n) => if n <= u16::MAX {
                n as int
            } else {
                DEFAULT_PORT as int
            },
            None => DEFAULT_PORT as int,
        },
        None => DEFAULT_PORT as int,
    }
}

/// The port that is listened on.
pub fn port(args: &Vec<String>) -> (r: u16)
    ensures
        r == port_of(texts(args@)),
{
    match flag(args, "--port") {
        Some(p) => match parse_unsigned(p.as_str(), 65535) {
            Some(n) => n as u16,
            None => DEFAULT_PORT,
        },
        None => DEFAULT_PORT,
    }
}

/// The address that is listened on.
pub fn host(args: &Vec<String>) -> (r: String)
    ensures
        r@ == match flag_of(texts(args@), "--host"@) {
            Some(h) => h,
            None => "127.0.0.1"@,
        },
{
    match flag(args, "--host") {
        Some(h) => h,
        None => "127.0.0.1".to_owned(),
    }
}

/// The root of the pages that the arguments name.
pub fn root_argument(args: &Vec<String>) -> (r: Option<String>)
    ensures
        match r {
            Some(v) => flag_of(texts(args@), "--root"@) == Some(v@),
            None => flag_of(texts(args@), "--root"@) is None,
        },
{
    flag(args, "--root")
}

/// How many levels above the executable the root of the pages lies: the executable is built into
/// `web/target/release`, below that root.
pub const EXECUTABLE_DEPTH: usize = 4;

/// What is there of something that may be missing.
pub open spec fn present<T>(o: Option<T>) -> Seq<T> {
    match o {
        Some(x) => seq![x],
        None => Seq::empty(),
    }
}

/// The candidates for the root of the pages, best first: the variable, the working directory, and
/// the place above the executable, as far as they are there.
pub fn root_candidates<T>(
    variable: Option<T>,
    working: Option<T>,
    executable: Option<T>,
) -> (r: Vec<T>)
    ensures
        r@ == present(variable) + present(working) + present(executable),
{
    let mut out: Vec<T> = Vec::new();
    if let Some(x) = variable {
        out.push(x);
    }
    if let Some(x) = working {
        out.push(x);
    }
    if let Some(x) = executable {
        out.push(x);
    }
    assert(out@ =~= present(variable) + present(working) + present(executable));
    out
}

/// Where the pages are.
#[derive(Debug, Clone, Copy, PartialEq, Eq)]
pub enum Root {
    /// Where the arguments say.
    Argument,
    /// At a candidate, by its place.
    Candidate(usize),
    /// In the working directory.
    Here,
}

/// Picks the root of the pages: the argument, where it will do, or else the first candidate that
/// will do.
pub fn frontend_root(argument: bool, usable: &Vec<bool>) -> (r: Root)
    ensures
        r is Argument <==> argument,
        r matches Root::Candidate(i) ==> i < usable@.len() && usable@[i as int] && forall|k: int|
            0 <= k < i ==> !(#[trigger] usable@[k]),
        r is Here <==> !argument && forall|k: int|
            0 <= k < usable@.len() ==> !(#[trigger] usable@[k]),
{
    if argument {
        return Root::Argument;
    }
    let mut i: usize = 0;
    while i < usable.len()
        invariant
            !argument,
            i <= usable@.len(),
            forall|k: int| 0 <= k < i ==> !(#[trigger] usable@[k]),
        decreases usable@.len() - i,
    {
        if usable[i] {
            return Root::Candidate(i);
        }
        i = i + 1;
    }
    Root::Here
}

/// A path below a directory.
pub open spec fn path_join(dir: Seq<char>, rel: Seq<char>) -> Seq<char> {
    if dir.len() == 0 || dir.last() == '/' {
        dir + rel
    } else {
        dir + "/"@ + rel
    }
}

/// A path below a directory; `rel` does not start with a slash.
pub fn join_path(dir: &str, rel: &str) -> (r: String)
    requires
        rel@.len() == 0 || rel@[0] != '/',
    ensures
        r@ == path_join(dir@, rel@),
{
    let v = crate::text::chars_of(dir);
    let n = v.len();
    if n == 0 || v[n - 1] == '/' {
        concat(dir, rel)
    } else {
        concat3(dir, "/", rel)
    }
}

/// The directories that an export may go to, best first: the downloads of the shared storage, and
/// those of the home directory at last.
pub open spec fn download_dirs(home: Seq<char>) -> Seq<Seq<char>> {
    seq![
        path_join(home, "storage/downloads"@),
        "/storage/emulated/0/Download"@,
        path_join(home, "downloads"@),
    ]
}

/// The directories that an export may go to, best first.
pub fn download_candidates(home: &str) -> (r: Vec<String>)
    ensures
        texts(r@) == download_dirs(home@),
{
    proof {
        reveal_strlit("storage/downloads");
        reveal_strlit("downloads");
    }
    let r = vec![
        join_path(home, "storage/downloads"),
        "/storage/emulated/0/Download".to_owned(),
        join_path(home, "downloads"),
    ];
    assert(texts(r@) =~= download_dirs(home@));
    r
}

/// The directory that an export goes to, by which of the candidates are directories.
#[derive(Debug, Clone, Copy, PartialEq, Eq)]
pub struct DownloadDir {
    /// Its place among the candidates.
    pub index: usize,
    /// Whether it is made first.
    pub create: bool,
}

/// Picks the directory that an export goes to: the first that is one, or else the last candidate,
/// which is made.
pub fn download_dir(is_dir: [bool; 3]) -> (r: DownloadDir)
    ensures
        r.index == (if is_dir[0] {
            0int
        } else if is_dir[1] {
            1
        } else {
            2
        }),
        r.create == !(is_dir[0] || is_dir[1] || is_dir[2]),
{
    if is_dir[0] {
        DownloadDir { index: 0, create: false }
    } else if is_dir[1] {
        DownloadDir { index: 1, create: false }
    } else {
        DownloadDir { index: 2, create: !is_dir[2] }
    }
}

// Laws.

proof fn lemma_stripped_start(s: Seq<char>, c: char)
    ensures
        ({
            let t = crate::text::stripped_start(s, c);
            t.len() <= s.len() && t == s.skip(s.len() - t.len()) && (t.len() > 0 ==> t[0] != c)
        }),
    decreases s.len(),
{
    if s.len() > 0 && s[0] == c {
        lemma_stripped_start(s.skip(1), c);
        let t = crate::text::stripped_start(s, c);
        assert(s.skip(1).skip(s.skip(1).len() - t.len()) =~= s.skip(s.len() - t.len()));
    } else {
        assert(s.skip(0) =~= s);
    }
}

proof fn lemma_occurs_in_suffix(s: Seq<char>, from: int, p: Seq<char>)
    requires
        0 <= from <= s.len(),
        crate::text::occurs(s.skip(from), p),
    ensures
        crate::text::occurs(s, p),
{
    let t = s.skip(from);
    let i = choose|i: int|
        0 <= i <= t.len() - p.len() && #[trigger] t.subrange(i, i + p.len()) == p;
    assert(s.subrange(from + i, from + i + p.len()) =~= p);
}

/// A file that is served is one of the pages, the icon, or lies in `src`; its path is relative and
/// leads neither up nor through a backslash.
pub proof fn law_served_files_stay_below_the_root(path: Seq<char>)
    requires
        file_of(path) is Some,
    ensures
        ({
            let rel = file_of(path)->0;
            &&& !crate::text::occurs(rel, ".."@)
            &&& !crate::text::occurs(rel, "\\"@)
            &&& rel.len() > 0
            &&& rel[0] != '/'
            &&& rel == "index.html"@ || rel == "settings.html"@ || rel == "captcha.html"@ || rel
                == "public/brand-icon.png"@ || crate::text::begins(rel, "src/"@)
        }),
{
    let rel = file_of(path)->0;
    let bare = crate::text::stripped_start(path, '/');
    lemma_stripped_start(path, '/');
    reveal_strlit("..");
    reveal_strlit("\\");
    reveal_strlit("index.html");
    reveal_strlit("src/");
    reveal_strlit("public/brand-icon.png");
    reveal_strlit("/settings.html");
    reveal_strlit("settings.html");
    reveal_strlit("/captcha.html");
    reveal_strlit("captcha.html");
    if rel == bare {
        if crate::text::occurs(bare, ".."@) {
            lemma_occurs_in_suffix(path, path.len() - bare.len(), ".."@);
        }
        if crate::text::occurs(bare, "\\"@) {
            lemma_occurs_in_suffix(path, path.len() - bare.len(), "\\"@);
        }
    }
    if path == "/settings.html"@ || path == "/captcha.html"@ {
        assert(path[0] == '/');
        assert(path.skip(1)[0] != '/');
        assert(crate::text::stripped_start(path.skip(1), '/') == path.skip(1));
        assert(bare == path.skip(1));
        if path == "/settings.html"@ {
            assert(path.skip(1) =~= "settings.html"@);
        } else {
            assert(path.skip(1) =~= "captcha.html"@);
        }
    }
    if rel == "index.html"@ || rel == "public/brand-icon.png"@ {
        assert(!rel.contains('\\'));
        assert forall|i: int| 0 <= i <= rel.len() - 1 implies #[trigger] rel.subrange(i, i + 1) != "\\"@ by {
            assert(rel.subrange(i, i + 1)[0] == rel[i]);
            assert("\\"@[0] == '\\');
        }
        assert forall|i: int| 0 <= i <= rel.len() - 2 implies #[trigger] rel.subrange(i, i + 2) != ".."@ by {
            assert(rel.subrange(i, i + 2)[0] == rel[i]);
            assert(rel.subrange(i, i + 2)[1] == rel[i + 1]);
        }
    }
}

/// A page is asked for with `GET` or `HEAD` only, and a command with `POST` only.
pub proof fn law_methods(method: Seq<char>, path: Seq<char>, body: Seq<u8>)
    ensures
        route_of(method, path, body) is File ==> method == "GET"@ || method == "HEAD"@,
        route_of(method, path, body) is Events ==> method == "GET"@,
        route_of(method, path, body) is Command || route_of(method, path, body) is Emit ==> method
            == "POST"@,
{
}

/// An event that a page announces is the event that the pages are told.
pub proof fn law_announced_event_is_told(
    body: Seq<u8>,
    event: Seq<char>,
    payload: crate::json::JsonView,
)
    requires
        crate::json::parsed_bytes(body) == Some(crate::events::event_value(event, payload)),
    ensures
        route_of("POST"@, "/api/emit"@, body) == (Route::<
            Seq<char>,
            crate::json::JsonView,
        >::Emit(Some((event, payload)))),
{
    crate::events::law_event_value_members(event, payload);
}

/// A slash at the end of a command's path makes no difference.
pub proof fn law_trailing_slash(path: Seq<char>, body: Seq<u8>)
    requires
        crate::text::begins(path, "/api/"@),
        path != "/api/emit"@,
    ensures
        route_of("POST"@, path.push('/'), body) == route_of("POST"@, path, body),
{
    let longer = path.push('/');
    let n = "/api/"@.len() as int;
    assert(longer.take(n) =~= path.take(n));
    assert(longer.skip(n) =~= path.skip(n).push('/'));
    assert(longer.skip(n).drop_last() =~= path.skip(n));
    reveal_strlit("/api/emit");
    assert(longer != "/api/emit"@) by {
        if longer == "/api/emit"@ {
            assert(longer.last() == '/');
        }
    }
    reveal_strlit("POST");
    reveal_strlit("GET");
    assert("POST"@[0] != "GET"@[0]);
}

// Laws of single answers, in terms of what was asked.

/// A route that is carried shows each of its parts.
pub proof fn law_route_parts(r: TextRoute)
    ensures
        match r {
            Route::Emit(Some((event, payload))) => route_view(r) matches Route::Emit(o)
                && o == Some(
                (event@, payload@),
            ),
            Route::Emit(None) => route_view(r) matches Route::Emit(o) && o is None,
            Route::Events => route_view(r) is Events,
            Route::Command { name, body } =>
                route_view(r) matches Route::Command { name: n, body: b } && n
                == name@ && b == body@,
            Route::File(rel) => route_view(r) matches Route::File(f) && f == rel@,
            Route::NotFound => route_view(r) is NotFound,
        },
{
}

/// A body announces the event under `event` with what stands under `payload`: the empty name where
/// there is no such text, and null where there is no such member. What is not JSON announces
/// nothing, and as parameters is an object without members.
pub proof fn law_bodies(v: crate::json::JsonView, key: Seq<char>)
    ensures
        announced_event(Some(v)) matches Some((event, payload)) && {
            &&& v.text_member("event"@) is Some ==> event == v.text_member("event"@)->0
            &&& v.text_member("event"@) is None ==> event.len() == 0
            &&& v.member("payload"@) is Some ==> payload == v.member("payload"@)->0
            &&& v.member("payload"@) is None ==> payload is Null
        },
        announced_event(None) is None,
        parameters(Some(v)) == v,
        parameters(None) is Object,
        parameters(None).member(key) is None,
{
}

/// The first page and the other pages are served under their names, and the icon from its place.
pub proof fn law_pages_are_served()
    ensures
        file_of("/"@) == Some("index.html"@),
        file_of("/index.html"@) == Some("index.html"@),
        file_of("/settings.html"@) == Some("settings.html"@),
        file_of("/captcha.html"@) == Some("captcha.html"@),
        file_of("/brand-icon.png"@) == Some("public/brand-icon.png"@),
{
    reveal_strlit("..");
    reveal_strlit("\\");
    reveal_strlit("/");
    reveal_strlit("/index.html");
    reveal_strlit("/settings.html");
    reveal_strlit("settings.html");
    reveal_strlit("/captcha.html");
    reveal_strlit("captcha.html");
    reveal_strlit("/brand-icon.png");
    lemma_no_dots("/"@);
    lemma_no_dots("/index.html"@);
    lemma_no_dots("/settings.html"@);
    lemma_no_dots("/captcha.html"@);
    lemma_no_dots("/brand-icon.png"@);
    crate::text::law_stripped_start(seq!['/'], "settings.html"@, '/');
    assert(seq!['/'] + "settings.html"@ =~= "/settings.html"@);
    crate::text::law_stripped_start(seq!['/'], "captcha.html"@, '/');
    assert(seq!['/'] + "captcha.html"@ =~= "/captcha.html"@);
}

/// A path with no two dots in a row and no backslash leads neither up nor elsewhere.
proof fn lemma_no_dots(s: Seq<char>)
    requires
        forall|i: int| 0 <= i < s.len() ==> #[trigger] s[i] != '\\',
        forall|i: int, j: int|
            0 <= i < s.len() && j == i + 1 && j < s.len() && #[trigger] s[i] == '.'
                ==> #[trigger] s[j]
                != '.',
    ensures
        !crate::text::occurs(s, ".."@),
        !crate::text::occurs(s, "\\"@),
{
    reveal_strlit("..");
    reveal_strlit("\\");
    if crate::text::occurs(s, ".."@) {
        let i = choose|i: int| 0 <= i <= s.len() - 2 && #[trigger] s.subrange(i, i + 2) == ".."@;
        assert(s.subrange(i, i + 2)[0] == s[i] && s.subrange(i, i + 2)[1] == s[i + 1]);
    }
    if crate::text::occurs(s, "\\"@) {
        let i = choose|i: int| 0 <= i <= s.len() - 1 && #[trigger] s.subrange(i, i + 1) == "\\"@;
        assert(s.subrange(i, i + 1)[0] == s[i]);
    }
}

/// A file in `src` is served under its own path, without the slashes before it, where the path
/// leads neither up nor through a backslash.
pub proof fn law_sources_are_served(slashes: Seq<char>, rest: Seq<char>)
    requires
        crate::text::only(slashes, '/'),
        !crate::text::occurs(slashes + "src/"@ + rest, ".."@),
        !crate::text::occurs(slashes + "src/"@ + rest, "\\"@),
    ensures
        file_of(slashes + "src/"@ + rest) == Some("src/"@ + rest),
{
    let t = "src/"@ + rest;
    let path = slashes + "src/"@ + rest;
    reveal_strlit("src/");
    reveal_strlit("/");
    reveal_strlit("/index.html");
    reveal_strlit("index.html");
    reveal_strlit("/brand-icon.png");
    reveal_strlit("brand-icon.png");
    assert(path =~= slashes + t);
    assert(t[0] == 's');
    crate::text::law_stripped_start(slashes, t, '/');
    crate::text::law_stripped_start(seq!['/'], "index.html"@, '/');
    assert(seq!['/'] + "index.html"@ =~= "/index.html"@);
    crate::text::law_stripped_start(seq!['/'], "brand-icon.png"@, '/');
    assert(seq!['/'] + "brand-icon.png"@ =~= "/brand-icon.png"@);
    crate::text::law_stripped_start("/"@, Seq::empty(), '/');
    assert("/"@ + Seq::empty() =~= "/"@);
    assert("index.html"@[0] == 'i' && "brand-icon.png"@[0] == 'b');
    crate::text::law_begins(t, "src/"@, rest);
}

/// Nothing else is served: neither a path that leads up or through a backslash, nor one that is no
/// page, not the icon, and not in `src`.
pub proof fn law_nothing_else_is_served(path: Seq<char>, slashes: Seq<char>, t: Seq<char>)
    ensures
        crate::text::occurs(path, ".."@) || crate::text::occurs(path, "\\"@)
            ==> file_of(path) is None,
        path == slashes + t && crate::text::only(slashes, '/') && (t.len() > 0 ==> t[0] != '/')
            && !crate::text::begins(t, "src/"@) && path != "/"@ && path != "/index.html"@ && path
            != "/settings.html"@ && path != "/captcha.html"@ && path != "/brand-icon.png"@
                ==> file_of(
            path,
        ) is None,
{
    if path == slashes + t && crate::text::only(slashes, '/') && (t.len() > 0 ==> t[0] != '/') {
        crate::text::law_stripped_start(slashes, t, '/');
    }
}

/// A command is what a `POST` below `/api/` names, without the slashes at its end, with the value
/// of the body; but `/api/emit` announces an event.
pub proof fn law_command_routes(
    name: Seq<char>,
    slashes: Seq<char>,
    value: Option<crate::json::JsonView>,
)
    requires
        crate::text::only(slashes, '/'),
        name.len() > 0 ==> name.last() != '/',
    ensures
        name + slashes != "emit"@
            ==> route_with("POST"@, "/api/"@ + name + slashes, value) == (Route::<
            Seq<char>,
            crate::json::JsonView,
        >::Command { name, body: parameters(value) }),
        route_with("POST"@, "/api/emit"@, value) == Route::<Seq<char>, crate::json::JsonView>::Emit(
            announced_event(value),
        ),
{
    let path = "/api/"@ + name + slashes;
    reveal_strlit("/api/");
    reveal_strlit("/api/emit");
    reveal_strlit("emit");
    reveal_strlit("POST");
    reveal_strlit("GET");
    assert("POST"@.len() == 4 && "GET"@.len() == 3);
    assert(path =~= "/api/"@ + (name + slashes));
    crate::text::law_begins(path, "/api/"@, name + slashes);
    assert(path.skip("/api/"@.len() as int) =~= name + slashes);
    crate::text::law_stripped_end(name, slashes, '/');
    if path == "/api/emit"@ {
        assert("/api/emit"@.skip(5) =~= "emit"@);
    }
}

/// The stream of events is asked for with `GET`, and any other path with `GET` or `HEAD` is a file
/// or nothing.
pub proof fn law_page_routes(
    method: Seq<char>,
    path: Seq<char>,
    value: Option<crate::json::JsonView>,
)
    ensures
        route_with("GET"@, "/api/events"@, value) is Events,
        route_with("GET"@, "/api/events/"@, value) is Events,
        method == "HEAD"@ || (method == "GET"@ && path != "/api/events"@ && path != "/api/events/"@)
            ==> {
            let r = route_with(method, path, value);
            &&& file_of(path) matches Some(rel) ==> (r matches Route::File(f) && f == rel)
            &&& file_of(path) is None ==> r is NotFound
        },
{
    reveal_strlit("POST");
    reveal_strlit("GET");
    reveal_strlit("HEAD");
    assert("GET"@.len() == 3 && "POST"@[0] == 'P' && "HEAD"@[0] == 'H');
    assert("POST"@.len() == 4 && "HEAD"@.len() == 4);
}

/// Every other method, and a `POST` anywhere else, leads nowhere; and a request goes by the JSON
/// value of its body.
pub proof fn law_other_routes(
    method: Seq<char>,
    path: Seq<char>,
    value: Option<crate::json::JsonView>,
    body: Seq<u8>,
)
    ensures
        method != "GET"@ && method != "HEAD"@ && method != "POST"@ ==> route_with(
            method,
            path,
            value,
        ) is NotFound,
        !crate::text::begins(path, "/api/"@) ==> route_with("POST"@, path, value) is NotFound,
        route_of(method, path, body) == route_with(method, path, crate::json::parsed_bytes(body)),
{
    reveal_strlit("POST");
    reveal_strlit("GET");
    reveal_strlit("HEAD");
    reveal_strlit("/api/");
    reveal_strlit("/api/emit");
    assert("GET"@.len() == 3 && "POST"@[0] == 'P' && "HEAD"@[0] == 'H');
    assert("POST"@.len() == 4 && "HEAD"@.len() == 4);
    assert("/api/emit"@.take(5) =~= "/api/"@);
}

/// A request that nothing answers is told so with its status; a file that is served comes whole,
/// under the content type of its name, and no cache keeps it.
pub proof fn law_answers_of_files(ext: Option<Seq<char>>, data: Seq<u8>)
    ensures
        not_found_response().status == 404,
        not_found_response().body == vstd::utf8::encode_utf8("not found"@),
        file_response(ext, data).status == 200,
        file_response(ext, data).content_type == content_type_of(ext),
        file_response(ext, data).extra_headers.len() == 1,
        file_response(ext, data).extra_headers[0] == ("Cache-Control"@, "no-store"@),
        file_response(ext, data).body == data,
{
}

/// Each kind of file has its content type, and a file of another kind is bytes.
pub proof fn law_content_types(e: Seq<char>)
    ensures
        content_type_of(Some("html"@)) == "text/html; charset=utf-8"@,
        content_type_of(Some("js"@)) == "text/javascript; charset=utf-8"@,
        content_type_of(Some("mjs"@)) == "text/javascript; charset=utf-8"@,
        content_type_of(Some("css"@)) == "text/css; charset=utf-8"@,
        content_type_of(Some("png"@)) == "image/png"@,
        content_type_of(Some("svg"@)) == "image/svg+xml"@,
        content_type_of(Some("json"@)) == "application/json"@,
        content_type_of(None) == "application/octet-stream"@,
        e != "html"@ && e != "js"@ && e != "mjs"@ && e != "css"@ && e != "png"@ && e != "svg"@ && e
            != "json"@ ==> content_type_of(Some(e)) == "application/octet-stream"@,
{
    reveal_strlit("html");
    reveal_strlit("js");
    reveal_strlit("mjs");
    reveal_strlit("css");
    reveal_strlit("png");
    reveal_strlit("svg");
    reveal_strlit("json");
    assert("html"@.len() == 4 && "js"@.len() == 2 && "mjs"@.len() == 3 && "css"@.len() == 3
        && "png"@.len() == 3 && "svg"@.len() == 3 && "json"@.len() == 4);
    assert("html"@[0] == 'h' && "json"@[0] == 'j' && "mjs"@[0] == 'm' && "css"@[0] == 'c'
        && "png"@[0]
        == 'p' && "svg"@[0] == 's');
}

/// The texts of strings are theirs, in order.
pub proof fn law_texts(v: Seq<String>, i: int)
    ensures
        texts(v).len() == v.len(),
        0 <= i < v.len() ==> texts(v)[i] == v[i]@,
{
}

/// A flag has the argument behind its first place, whatever stands around the two, and none where
/// it is the last argument or not there.
pub proof fn law_flag(before: Seq<Seq<char>>, name: Seq<char>, v: Seq<char>, rest: Seq<Seq<char>>)
    requires
        !before.contains(name),
    ensures
        flag_of(before + seq![name, v] + rest, name) == Some(v),
        flag_of(before + seq![name], name) is None,
        flag_of(before, name) is None,
    decreases before.len(),
{
    if before.len() > 0 {
        let others = before.skip(1);
        assert(before[0] != name);
        assert(!others.contains(name)) by {
            if others.contains(name) {
                let i = choose|i: int| 0 <= i < others.len() && others[i] == name;
                assert(before[i + 1] == name);
            }
        }
        law_flag(others, name, v, rest);
        assert((before + seq![name, v] + rest).skip(1) =~= others + seq![name, v] + rest);
        assert((before + seq![name]).skip(1) =~= others + seq![name]);
    } else {
        let all = before + seq![name, v] + rest;
        assert(all[0] == name && all[1] == v);
        assert((before + seq![name])[0] == name);
    }
}

/// The port is the number behind `--port` where it is one that a port can have, and else the usual
/// one.
pub proof fn law_port(args: Seq<Seq<char>>, p: Seq<char>, n: nat)
    ensures
        flag_of(args, "--port"@) is None ==> port_of(args) == 8790,
        flag_of(args, "--port"@) == Some(p) && crate::text::unsigned(p) is None
            ==> port_of(args) == 8790,
        flag_of(args, "--port"@) == Some(p) && crate::text::unsigned(p) == Some(n) && n <= 65535
            ==> port_of(args) == n,
        flag_of(args, "--port"@) == Some(p) && crate::text::unsigned(p) == Some(n) && n > 65535
            ==> port_of(args) == 8790,
        EXECUTABLE_DEPTH == 4,
{
}

/// Something is there once, and what is missing is not.
pub proof fn law_present<T>(x: T)
    ensures
        present(Some(x)).len() == 1,
        present(Some(x))[0] == x,
        present(None::<T>).len() == 0,
{
}

/// A path below a directory has one slash between the two; the empty directory adds none.
pub proof fn law_joined_paths(dir: Seq<char>, rel: Seq<char>)
    ensures
        dir.len() > 0 && dir.last() != '/' ==> path_join(dir, rel) == dir.push('/') + rel,
        path_join(dir.push('/'), rel) == dir.push('/') + rel,
        path_join(Seq::empty(), rel) == rel,
{
    reveal_strlit("/");
    assert(dir + "/"@ =~= dir.push('/'));
    assert(Seq::empty() + rel =~= rel);
}

/// Exports go to the shared downloads below the home directory, to those of the device, or to a
/// directory of the home, in this order.
pub proof fn law_download_dirs(home: Seq<char>)
    ensures
        download_dirs(home).len() == 3,
        download_dirs(home)[0] == path_join(home, "storage/downloads"@),
        download_dirs(home)[1] == "/storage/emulated/0/Download"@,
        download_dirs(home)[2] == path_join(home, "downloads"@),
{
}

} // verus!
