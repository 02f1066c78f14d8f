//! Exports and imports of accounts.

use vstd::prelude::*;

use crate::api::sanitize_filename;
use crate::failure::Failure;
use crate::json::Json;
use crate::router::join_path;
use crate::step::{done, fail, fail_text, Source, Step, TextStep};
use crate::text::{concat, same};

verus! {

// Exports.

/// Where the export of one account goes.
pub fn got_export_name(reply: Result<String, String>) -> (r: TextStep)
    ensures
        crate::step::step_view(r) == match reply {
            Ok(name) => Step::ExportDir { name: name@ },
            Err(e) => crate::step::failed(Failure::Text(e@)),
        },
{
    match reply {
        Ok(name) => Step::ExportDir { name },
        Err(e) => fail_text(e),
    }
}

/// The path that the export of an account goes to.
pub open spec fn export_path(dir: Seq<char>, name: Seq<char>) -> Seq<char> {
    crate::router::path_join(dir, crate::api::file_name(name) + ".zsb"@)
}

/// The path for the export of one account is its name, cleaned, in the directory for exports.
pub fn got_export_dir(name: String, dir: String) -> (r: TextStep)
    ensures
        crate::step::step_view(r) == crate::step::ended(
            crate::json::object(
                seq![
                    ("picked"@, crate::json::JsonView::Bool(true)),
                    ("path"@, crate::json::JsonView::Text(export_path(dir@, name@))),
                    ("name"@, crate::json::JsonView::Text(name@)),
                ],
            ),
        ),
{
    let file = concat(sanitize_filename(name.as_str()).as_str(), ".zsb");
    proof {
        reveal_strlit(".zsb");
        crate::api::law_file_names_are_clean(name@);
        if name@.len() > 0 {
            assert(crate::api::file_name(name@).contains(crate::api::file_name(name@)[0]));
        }
    }
    let path = join_path(dir.as_str(), file.as_str());
    let entries = vec![
        ("picked".to_owned(), Json::Bool(true)),
        ("path".to_owned(), Json::Text(path)),
        ("name".to_owned(), Json::Text(name)),
    ];
    proof {
        assert(crate::json::entry_views(entries@) =~= seq![
            ("picked"@, crate::json::JsonView::Bool(true)),
            ("path"@, crate::json::JsonView::Text(export_path(dir@, name@))),
            ("name"@, crate::json::JsonView::Text(name@)),
        ]);
    }
    done(Json::Object(entries))
}

/// There has to be an account for an export of all.
pub fn counted(reply: Result<u64, String>) -> (r: TextStep)
    ensures
        crate::step::step_view(r) == match reply {
            Ok(count) => if count == 0 {
                crate::step::failed(Failure::NothingToExport)
            } else {
                Step::ExportAllDir { accounts: count }
            },
            Err(e) => crate::step::failed(Failure::Text(e@)),
        },
{
    match reply {
        Ok(count) => if count == 0 {
            fail(Failure::NothingToExport)
        } else {
            Step::ExportAllDir { accounts: count }
        },
        Err(e) => fail_text(e),
    }
}

/// The path for the export of all accounts.
pub fn got_export_all_dir(count: u64, dir: String) -> (r: TextStep)
    ensures
        crate::step::step_view(r) == crate::step::ended(
            crate::json::object(
                seq![
                    ("picked"@, crate::json::JsonView::Bool(true)),
                    (
                        "path"@,
                        crate::json::JsonView::Text(
                            crate::router::path_join(dir@, "zcode-accounts.zsb"@),
                        ),
                    ),
                    ("count"@, crate::json::JsonView::Number(crate::json::number_of(count))),
                ],
            ),
        ),
{
    proof {
        reveal_strlit("zcode-accounts.zsb");
    }
    let path = join_path(dir.as_str(), "zcode-accounts.zsb");
    let entries = vec![
        ("picked".to_owned(), Json::Bool(true)),
        ("path".to_owned(), Json::Text(path)),
        ("count".to_owned(), Json::number(count)),
    ];
    proof {
        assert(crate::json::entry_views(entries@) =~= seq![
            ("picked"@, crate::json::JsonView::Bool(true)),
            (
                "path"@,
                crate::json::JsonView::Text(
                    crate::router::path_join(dir@, "zcode-accounts.zsb"@),
                ),
            ),
            ("count"@, crate::json::JsonView::Number(crate::json::number_of(count))),
        ]);
    }
    done(Json::Object(entries))
}

/// Accounts bundled for an export.
#[derive(Debug)]
pub struct Bundled {
    pub count: u64,
    pub payload: Json,
}

/// What follows the bundle of an export: how many accounts it holds, and what it is.
pub open spec fn with_bundle(
    source: Source<Seq<char>>,
    path: Seq<char>,
    password: Seq<char>,
    reply: Result<(u64, crate::json::JsonView), Seq<char>>,
) -> crate::step::StepView {
    match reply {
        Ok((count, payload)) => if count == 0 {
            crate::step::failed(Failure::NoAccountToWrite)
        } else {
            Step::Seal {
                payload,
                password,
                path,
                count: if source is All {
                    Some(count)
                } else {
                    None
                },
            }
        },
        Err(e) => crate::step::failed(Failure::Text(e)),
    }
}

/// A bundle is sealed where it holds an account. Of an export of all the number of accounts is
/// told at the end.
pub fn got_bundle(
    source: Source<String>,
    path: String,
    password: String,
    reply: Result<Bundled, String>,
) -> (r: TextStep)
    ensures
        crate::step::step_view(r) == with_bundle(
            crate::step::source_view(source),
            path@,
            password@,
            match reply {
                Ok(bundle) => Ok((bundle.count, bundle.payload@)),
                Err(e) => Err(e@),
            },
        ),
{
    match reply {
        Ok(bundle) => {
            if bundle.count == 0 {
                return fail(Failure::NoAccountToWrite);
            }
            let count = match source {
                Source::All => Some(bundle.count),
                Source::One { id: _ } => None,
            };
            Step::Seal { payload: bundle.payload, password, path, count }
        },
        Err(e) => fail_text(e),
    }
}

/// What is written for a sealed bundle: its indented text and a line feed.
pub open spec fn export_body(sealed: crate::json::JsonView) -> Seq<char> {
    crate::json::pretty_text(sealed) + "\n"@
}

/// The indented text of a sealed bundle is written to its path, with a line feed at its end.
pub fn write_sealed(path: String, count: Option<u64>, text: &str) -> (r: TextStep)
    ensures
        crate::step::step_view(r) == (Step::<Seq<char>, crate::json::JsonView>::WriteExport {
            path: path@,
            body: text@ + "\n"@,
            count,
        }),
{
    Step::WriteExport { path, body: concat(text, "\n"), count }
}

/// What follows the sealed bundle of an export.
pub open spec fn with_sealed(
    path: Seq<char>,
    count: Option<u64>,
    reply: Result<crate::json::JsonView, Seq<char>>,
) -> crate::step::StepView {
    match reply {
        Ok(sealed) => Step::WriteExport { path, body: export_body(sealed), count },
        Err(e) => crate::step::failed(Failure::Text(e)),
    }
}

/// A sealed bundle is written to its path.
pub fn got_sealed(path: String, count: Option<u64>, reply: Result<Json, String>) -> (r: TextStep)
    ensures
        crate::step::step_view(r) == with_sealed(path@, count, crate::step::json_result(reply)),
        reply matches Ok(sealed) ==> crate::json::plain(sealed@, crate::json::reading_depth())
            ==> crate::json::reads_as(export_body(sealed@), sealed@),
{
    match reply {
        Ok(sealed) => write_sealed(path, count, sealed.to_pretty_text().as_str()),
        Err(e) => fail_text(e),
    }
}

/// The answer to an export that was written.
pub open spec fn export_answer(path: Seq<char>, count: Option<u64>) -> crate::json::JsonView {
    match count {
        Some(n) => crate::json::object(
            seq![
                ("saved"@, crate::json::JsonView::Bool(true)),
                ("path"@, crate::json::JsonView::Text(path)),
                ("count"@, crate::json::JsonView::Number(crate::json::number_of(n))),
            ],
        ),
        None => crate::json::object(
            seq![
                ("saved"@, crate::json::JsonView::Bool(true)),
                ("path"@, crate::json::JsonView::Text(path)),
            ],
        ),
    }
}

/// What follows the writing of an export.
pub open spec fn after_write(
    path: Seq<char>,
    count: Option<u64>,
    reply: Result<(), Seq<char>>,
) -> crate::step::StepView {
    match reply {
        Ok(u) => crate::step::ended(export_answer(path, count)),
        Err(e) => crate::step::failed(Failure::CannotWrite(e)),
    }
}

/// The end of an export.
pub fn written(path: String, count: Option<u64>, reply: Result<(), String>) -> (r: TextStep)
    ensures
        crate::step::step_view(r) == after_write(path@, count, crate::step::unit_result(reply)),
{
    match reply {
        Ok(_) => {
            let ghost p = path@;
            match count {
                Some(n) => {
                    let entries = vec![
                        ("saved".to_owned(), Json::Bool(true)),
                        ("path".to_owned(), Json::Text(path)),
                        ("count".to_owned(), Json::number(n)),
                    ];
                    proof {
                        assert(crate::json::entry_views(entries@) =~= seq![
                            ("saved"@, crate::json::JsonView::Bool(true)),
                            ("path"@, crate::json::JsonView::Text(p)),
                            ("count"@, crate::json::JsonView::Number(crate::json::number_of(n))),
                        ]);
                    }
                    done(Json::Object(entries))
                },
                None => {
                    let entries = vec![
                        ("saved".to_owned(), Json::Bool(true)),
                        ("path".to_owned(), Json::Text(path)),
                    ];
                    proof {
                        assert(crate::json::entry_views(entries@) =~= seq![
                            ("saved"@, crate::json::JsonView::Bool(true)),
                            ("path"@, crate::json::JsonView::Text(p)),
                        ]);
                    }
                    done(Json::Object(entries))
                },
            }
        },
        Err(e) => fail(Failure::CannotWrite(e)),
    }
}

// Sealed files.

/// The name and the value of an array of two whose first is a text.
pub open spec fn named_value(
    v: crate::json::JsonView,
) -> Option<(Seq<char>, crate::json::JsonView)> {
    match v {
        crate::json::JsonView::Array(a) => if a.len() == 2 && a[0] is Text {
            Some((a[0]->Text_0, a[1]))
        } else {
            None
        },
        _ => None,
    }
}

/// The names and values of an array of such arrays.
pub open spec fn named_values(
    v: crate::json::JsonView,
) -> Option<Seq<(Seq<char>, crate::json::JsonView)>> {
    match v {
        crate::json::JsonView::Array(a) => if forall|i: int|
            0 <= i < a.len() ==> named_value(#[trigger] a[i]) is Some {
            Some(Seq::new(a.len(), |i: int| named_value(a[i])->0))
        } else {
            None
        },
        _ => None,
    }
}

/// A list of names and values, as text.
pub open spec fn named_views(v: Seq<(String, Json)>) -> Seq<(Seq<char>, crate::json::JsonView)> {
    Seq::new(v.len(), |i: int| (v[i].0@, v[i].1@))
}

/// The sealed files that a page hands back, or `None` where it hands back something else.
pub fn sealed_files(files: &Json) -> (r: Option<Vec<(String, Json)>>)
    ensures
        match r {
            Some(v) => named_values(files@) == Some(named_views(v@)),
            None => named_values(files@) is None,
        },
{
    let list = match files {
        Json::Array(list) => list,
        _ => {
            return None;
        },
    };
    let ghost all = crate::json::json_views(list@);
    let mut out: Vec<(String, Json)> = Vec::new();
    let mut i: usize = 0;
    while i < list.len()
        invariant
            i <= list@.len(),
            all == crate::json::json_views(list@),
            files@ == crate::json::JsonView::Array(all),
            out@.len() == i,
            forall|k: int|
                0 <= k < i ==> named_value(#[trigger] all[k]) == Some((out@[k].0@, out@[k].1@)),
        decreases list@.len() - i,
    {
        assert(all[i as int] == crate::json::json_view(list@[i as int]));
        let pair = match &list[i] {
            Json::Array(pair) => pair,
            _ => {
                return None;
            },
        };
        let ghost inner = crate::json::json_views(pair@);
        assert(all[i as int] == crate::json::JsonView::Array(inner));
        if pair.len() != 2 {
            return None;
        }
        assert(inner[0] == crate::json::json_view(pair@[0]));
        assert(inner[1] == crate::json::json_view(pair@[1]));
        match &pair[0] {
            Json::Text(name) => {
                out.push((name.clone(), pair[1].copy()));
            },
            _ => {
                return None;
            },
        }
        i = i + 1;
    }
    proof {
        assert(Seq::new(all.len(), |k: int| named_value(all[k])->0) =~= named_views(out@));
    }
    Some(out)
}

// Files that a page sends.

/// What was sent of a file.
#[derive(Debug)]
pub enum Contents<S, J> {
    Missing,
    NotJson(S),
    Value(J),
}

/// A file that a page sends.
#[derive(Debug)]
pub struct Candidate<S, J> {
    pub name: S,
    pub contents: Contents<S, J>,
}

/// What a file is that a page sends.
pub open spec fn candidate_view(
    c: Candidate<String, Json>,
) -> Candidate<Seq<char>, crate::json::JsonView> {
    Candidate {
        name: c.name@,
        contents: match c.contents {
            Contents::Missing => Contents::Missing,
            Contents::NotJson(e) => Contents::NotJson(e@),
            Contents::Value(v) => Contents::Value(v@),
        },
    }
}

/// A file that a page sends, by its name and contents. One without a name has the empty one.
pub open spec fn candidate_of(
    f: crate::json::JsonView,
) -> Candidate<Seq<char>, crate::json::JsonView> {
    Candidate {
        name: match f.text_member("name"@) {
            Some(name) => name,
            None => Seq::empty(),
        },
        contents: match f.text_member("content"@) {
            Some(text) => match crate::json::parsed_text(text) {
                Ok(v) => Contents::Value(v),
                Err(e) => Contents::NotJson(e),
            },
            None => Contents::Missing,
        },
    }
}

/// The files that a page sends.
pub open spec fn candidates_of(
    files: crate::json::JsonView,
) -> Seq<Candidate<Seq<char>, crate::json::JsonView>> {
    match files {
        crate::json::JsonView::Array(a) => Seq::new(a.len(), |i: int| candidate_of(a[i])),
        _ => Seq::empty(),
    }
}

/// What files are that a page sends.
pub open spec fn candidate_views(
    v: Seq<Candidate<String, Json>>,
) -> Seq<Candidate<Seq<char>, crate::json::JsonView>> {
    Seq::new(v.len(), |i: int| candidate_view(v[i]))
}

fn read_candidate(f: &Json) -> (r: Candidate<String, Json>)
    ensures
        candidate_view(r) == candidate_of(f@),
{
    let name = match f.get_text("name") {
        Some(name) => name.to_owned(),
        None => String::new(),
    };
    let contents = match f.get_text("content") {
        Some(text) => match Json::parse_text(text) {
            Ok(v) => Contents::Value(v),
            Err(e) => Contents::NotJson(e),
        },
        None => Contents::Missing,
    };
    Candidate { name, contents }
}

/// Reads the files that a page sends.
pub fn import_candidates(files: &Json) -> (r: Vec<Candidate<String, Json>>)
    ensures
        candidate_views(r@) == candidates_of(files@),
{
    let mut out: Vec<Candidate<String, Json>> = Vec::new();
    match files {
        Json::Array(list) => {
            let ghost all = crate::json::json_views(list@);
            let mut i: usize = 0;
            while i < list.len()
                invariant
                    i <= list@.len(),
                    all == crate::json::json_views(list@),
                    out@.len() == i,
                    forall|k: int|
                        0 <= k < i ==> candidate_view(#[trigger] out@[k]) == candidate_of(all[k]),
                decreases list@.len() - i,
            {
                assert(all[i as int] == crate::json::json_view(list@[i as int]));
                out.push(read_candidate(&list[i]));
                i = i + 1;
            }
            assert(candidate_views(out@) =~= candidates_of(files@));
        },
        _ => {
            assert(candidate_views(out@) =~= candidates_of(files@));
        },
    }
    out
}

/// What went well, in order.
pub open spec fn successes<T, E>(s: Seq<Result<T, E>>) -> Seq<T>
    decreases s.len(),
{
    if s.len() == 0 {
        Seq::empty()
    } else {
        match s.last() {
            Ok(t) => successes(s.drop_last()).push(t),
            Err(e) => successes(s.drop_last()),
        }
    }
}

/// What went wrong, in order.
pub open spec fn failures<T, E>(s: Seq<Result<T, E>>) -> Seq<E>
    decreases s.len(),
{
    if s.len() == 0 {
        Seq::empty()
    } else {
        match s.last() {
            Ok(t) => failures(s.drop_last()),
            Err(e) => failures(s.drop_last()).push(e),
        }
    }
}

/// Each file is told of once, either as one that can be opened or with an error.
pub proof fn law_each_file_counts_once<T, E>(s: Seq<Result<T, E>>)
    ensures
        successes(s).len() + failures(s).len() == s.len(),
    decreases s.len(),
{
    if s.len() > 0 {
        law_each_file_counts_once(s.drop_last());
    }
}

/// Whether a file can be opened, by what it is, whether it is sealed, and the format of a bundle.
pub open spec fn verdict(
    c: Candidate<Seq<char>, crate::json::JsonView>,
    sealed: bool,
    bundle: Seq<char>,
) -> Result<(Seq<char>, crate::json::JsonView), Failure<Seq<char>>> {
    match c.contents {
        Contents::Missing => Err(Failure::CannotRead { file: c.name, reason: "no content"@ }),
        Contents::NotJson(e) => Err(Failure::NotJson { file: c.name, reason: e }),
        Contents::Value(v) => if !sealed {
            Err(Failure::NotSealed { file: c.name })
        } else if v.text_member("format"@) != Some(bundle) {
            Err(Failure::NotBundle { file: c.name })
        } else {
            Ok((c.name, v))
        },
    }
}

/// The verdicts on files, each with whether it is sealed.
pub open spec fn verdicts(
    files: Seq<(Candidate<String, Json>, bool)>,
    bundle: Seq<char>,
) -> Seq<Result<(Seq<char>, crate::json::JsonView), Failure<Seq<char>>>> {
    Seq::new(files.len(), |i: int| verdict(candidate_view(files[i].0), files[i].1, bundle))
}

/// What failures are.
pub open spec fn failure_views(v: Seq<Failure<String>>) -> Seq<Failure<Seq<char>>> {
    Seq::new(v.len(), |i: int| crate::failure::failure_view(v[i]))
}

fn judge(c: Candidate<String, Json>, sealed: bool, bundle: &str) -> (r: Result<
    (String, Json),
    Failure<String>,
>)
    ensures
        match r {
            Ok(p) => verdict(candidate_view(c), sealed, bundle@) == Ok::<
                (Seq<char>, crate::json::JsonView),
                Failure<Seq<char>>,
            >((p.0@, p.1@)),
            Err(f) => verdict(candidate_view(c), sealed, bundle@) == Err::<
                (Seq<char>, crate::json::JsonView),
                Failure<Seq<char>>,
            >(crate::failure::failure_view(f)),
        },
{
    match c.contents {
        Contents::Missing => Err(
            Failure::CannotRead { file: c.name, reason: "no content".to_owned() },
        ),
        Contents::NotJson(e) => Err(Failure::NotJson { file: c.name, reason: e }),
        Contents::Value(v) => {
            if !sealed {
                return Err(Failure::NotSealed { file: c.name });
            }
            let is_bundle = match v.get_text("format") {
                Some(format) => same(format, bundle),
                None => false,
            };
            if !is_bundle {
                return Err(Failure::NotBundle { file: c.name });
            }
            Ok((c.name, v))
        },
    }
}

/// Parts the files that can be opened from those that cannot. Each comes with whether it is
/// sealed.
pub fn sort_candidates(files: Vec<(Candidate<String, Json>, bool)>, bundle: &str) -> (r: (
    Vec<(String, Json)>,
    Vec<Failure<String>>,
))
    ensures
        named_views(r.0@) == successes(verdicts(files@, bundle@)),
        failure_views(r.1@) == failures(verdicts(files@, bundle@)),
{
    let ghost items = files@;
    let ghost all = verdicts(items, bundle@);
    let mut good: Vec<(String, Json)> = Vec::new();
    let mut bad: Vec<Failure<String>> = Vec::new();
    proof {
        assert(all.take(0) =~= Seq::empty());
        assert(named_views(good@) =~= Seq::empty());
        assert(failure_views(bad@) =~= Seq::empty());
    }
    for f in it: files
        invariant
            it.seq() == items,
            all == verdicts(items, bundle@),
            named_views(good@) == successes(all.take(it.index())),
            failure_views(bad@) == failures(all.take(it.index())),
    {
        let ghost k = it.index();
        let ghost next = all.take(k + 1);
        proof {
            assert(next.drop_last() =~= all.take(k));
            assert(next.last() == all[k]);
            assert(all[k] == verdict(candidate_view(items[k].0), items[k].1, bundle@));
        }
        match judge(f.0, f.1, bundle) {
            Ok(p) => {
                let ghost had = good@;
                good.push(p);
                assert(named_views(good@) =~= named_views(had).push((p.0@, p.1@)));
            },
            Err(e) => {
                let ghost had = bad@;
                bad.push(e);
                assert(failure_views(bad@) =~= failure_views(had).push(
                    crate::failure::failure_view(e),
                ));
            },
        }
    }
    assert(all.take(all.len() as int) =~= all);
    (good, bad)
}

/// A name and a value as an array of two.
pub open spec fn pair_value(p: (Seq<char>, crate::json::JsonView)) -> crate::json::JsonView {
    crate::json::JsonView::Array(seq![crate::json::JsonView::Text(p.0), p.1])
}

/// Names and values as an array.
pub open spec fn pairs_value(
    v: Seq<(Seq<char>, crate::json::JsonView)>,
) -> crate::json::JsonView {
    crate::json::JsonView::Array(Seq::new(v.len(), |i: int| pair_value(v[i])))
}

/// Texts as an array.
pub open spec fn texts_value(v: Seq<Seq<char>>) -> crate::json::JsonView {
    crate::json::JsonView::Array(Seq::new(v.len(), |i: int| crate::json::JsonView::Text(v[i])))
}

fn pairs_json(v: Vec<(String, Json)>) -> (r: Json)
    ensures
        r@ == pairs_value(named_views(v@)),
{
    let ghost items = v@;
    let mut out: Vec<Json> = Vec::new();
    for p in it: v
        invariant
            it.seq() == items,
            out@.len() == it.index(),
            forall|k: int|
                0 <= k < out@.len() ==> crate::json::json_view(#[trigger] out@[k]) == pair_value(
                    (items[k].0@, items[k].1@),
                ),
    {
        let ghost q = (p.0@, p.1@);
        let inner = vec![Json::Text(p.0), p.1];
        assert(crate::json::json_views(inner@) =~= seq![crate::json::JsonView::Text(q.0), q.1]);
        out.push(Json::Array(inner));
    }
    proof {
        let n = named_views(items);
        assert(crate::json::json_views(out@) =~= Seq::new(n.len(), |i: int| pair_value(n[i])));
    }
    Json::Array(out)
}

fn texts_json(v: Vec<String>) -> (r: Json)
    ensures
        r@ == texts_value(crate::router::texts(v@)),
{
    let ghost items = v@;
    let mut out: Vec<Json> = Vec::new();
    for s in it: v
        invariant
            it.seq() == items,
            out@.len() == it.index(),
            forall|k: int|
                0 <= k < out@.len() ==> crate::json::json_view(#[trigger] out@[k])
                    == crate::json::JsonView::Text(items[k]@),
    {
        out.push(Json::Text(s));
    }
    proof {
        let n = crate::router::texts(items);
        assert(crate::json::json_views(out@) =~= Seq::new(
            n.len(),
            |i: int| crate::json::JsonView::Text(n[i]),
        ));
    }
    Json::Array(out)
}

/// The answer to files that were sent: those that can be opened, and the words for the errors.
pub fn import_picked(sealed: Vec<(String, Json)>, errors: Vec<String>) -> (r: TextStep)
    ensures
        crate::step::step_view(r) == crate::step::ended(
            crate::json::object(
                seq![
                    ("picked"@, crate::json::JsonView::Bool(true)),
                    ("sealed"@, pairs_value(named_views(sealed@))),
                    ("errors"@, texts_value(crate::router::texts(errors@))),
                ],
            ),
        ),
{
    let ghost a = pairs_value(named_views(sealed@));
    let ghost e = texts_value(crate::router::texts(errors@));
    let entries = vec![
        ("picked".to_owned(), Json::Bool(true)),
        ("sealed".to_owned(), pairs_json(sealed)),
        ("errors".to_owned(), texts_json(errors)),
    ];
    proof {
        assert(crate::json::entry_views(entries@) =~= seq![
            ("picked"@, crate::json::JsonView::Bool(true)),
            ("sealed"@, a),
            ("errors"@, e),
        ]);
    }
    done(Json::Object(entries))
}

/// What came of opening a sealed file.
pub open spec fn opening(f: (String, Result<Json, String>)) -> Result<
    (Seq<char>, crate::json::JsonView),
    Failure<Seq<char>>,
> {
    match f.1 {
        Ok(v) => Ok((f.0@, v@)),
        Err(e) => Err(Failure::CannotOpen { file: f.0@, reason: e@ }),
    }
}

/// What came of opening sealed files.
pub open spec fn openings(files: Seq<(String, Result<Json, String>)>) -> Seq<
    Result<(Seq<char>, crate::json::JsonView), Failure<Seq<char>>>,
> {
    Seq::new(files.len(), |i: int| opening(files[i]))
}

/// Parts the files that were opened from those that were not. Nothing is imported where none was.
pub fn sort_opened(files: Vec<(String, Result<Json, String>)>) -> (r: (
    Option<Vec<(String, Json)>>,
    Vec<Failure<String>>,
))
    ensures
        match r.0 {
            Some(v) => v@.len() > 0 && named_views(v@) == successes(openings(files@)),
            None => successes(openings(files@)).len() == 0,
        },
        failure_views(r.1@) == failures(openings(files@)),
{
    let ghost items = files@;
    let ghost all = openings(items);
    let mut good: Vec<(String, Json)> = Vec::new();
    let mut bad: Vec<Failure<String>> = Vec::new();
    proof {
        assert(all.take(0) =~= Seq::empty());
        assert(named_views(good@) =~= Seq::empty());
        assert(failure_views(bad@) =~= Seq::empty());
    }
    for f in it: files
        invariant
            it.seq() == items,
            all == openings(items),
            named_views(good@) == successes(all.take(it.index())),
            failure_views(bad@) == failures(all.take(it.index())),
    {
        let ghost k = it.index();
        let ghost next = all.take(k + 1);
        proof {
            assert(next.drop_last() =~= all.take(k));
            assert(next.last() == all[k]);
            assert(all[k] == opening(items[k]));
        }
        match f.1 {
            Ok(v) => {
                let ghost had = good@;
                good.push((f.0, v));
                assert(named_views(good@) =~= named_views(had).push((f.0@, v@)));
            },
            Err(e) => {
                let ghost had = bad@;
                bad.push(Failure::CannotOpen { file: f.0, reason: e });
                assert(failure_views(bad@) =~= failure_views(had).push(
                    Failure::CannotOpen { file: f.0@, reason: e@ },
                ));
            },
        }
    }
    assert(all.take(all.len() as int) =~= all);
    assert(named_views(good@).len() == good@.len());
    if good.len() == 0 {
        (None, bad)
    } else {
        (Some(good), bad)
    }
}

/// What came of an import: the errors in its report, and the other members of the report.
#[derive(Debug)]
pub struct Imported {
    pub rest: Vec<(String, Json)>,
    pub errors: Vec<String>,
}

/// The answer to an import: its report, with the words for every error.
pub open spec fn import_answer(
    rest: Seq<(Seq<char>, crate::json::JsonView)>,
    errors: Seq<Seq<char>>,
) -> crate::json::JsonView {
    crate::json::object(
        rest + seq![
            ("picked"@, crate::json::JsonView::Bool(true)),
            ("errors"@, texts_value(errors)),
        ],
    )
}

/// The end of an import. An import that failed is the answer; else the words for the files that
/// could not be opened stand behind the errors of the import.
pub fn imported(reply: Result<Imported, String>, errors: Vec<String>) -> (r: TextStep)
    ensures
        crate::step::step_view(r) == match reply {
            Ok(i) => crate::step::ended(
                import_answer(
                    crate::json::entry_views(i.rest@),
                    crate::router::texts(i.errors@) + crate::router::texts(errors@),
                ),
            ),
            Err(e) => crate::step::failed(Failure::Text(e@)),
        },
{
    match reply {
        Ok(i) => {
            let ghost rest = crate::json::entry_views(i.rest@);
            let ghost words = crate::router::texts(i.errors@) + crate::router::texts(errors@);
            let mut all = i.errors;
            let mut more = errors;
            all.append(&mut more);
            assert(crate::router::texts(all@) =~= words);
            let mut entries = i.rest;
            entries.push(("picked".to_owned(), Json::Bool(true)));
            entries.push(("errors".to_owned(), texts_json(all)));
            proof {
                assert(crate::json::entry_views(entries@) =~= rest + seq![
                    ("picked"@, crate::json::JsonView::Bool(true)),
                    ("errors"@, texts_value(words)),
                ]);
            }
            done(Json::Object(entries))
        },
        Err(e) => fail_text(e),
    }
}

// Laws.

/// An export of an account stays in the directory for exports, whatever the name of the account:
/// its path is that of the directory and the name of a file in it.
pub proof fn law_export_stays_in_the_directory(dir: Seq<char>, name: Seq<char>)
    ensures
        ({
            let file = crate::api::file_name(name) + ".zsb"@;
            &&& !file.contains('/')
            &&& !file.contains('\\')
            &&& export_path(dir, name) == dir + file || export_path(dir, name) == dir + "/"@ + file
            &&& crate::text::begins(export_path(dir, name), dir)
        }),
{
    reveal_strlit(".zsb");
    crate::api::law_file_names_are_clean(name);
    let clean = crate::api::file_name(name);
    let file = clean + ".zsb"@;
    assert forall|c: char| #[trigger] file.contains(c) implies clean.contains(c) || c == '.' || c
        == 'z' || c == 's' || c == 'b' by {
        let i = choose|i: int| 0 <= i < file.len() && file[i] == c;
        if i < clean.len() {
            assert(clean[i] == c);
        }
    }
    assert((dir + file).take(dir.len() as int) =~= dir);
    assert((dir + "/"@ + file).take(dir.len() as int) =~= dir);
}

/// The answer to an import says that files were picked and what went wrong, whatever else it holds.
pub proof fn law_import_answer_is_complete(
    rest: Seq<(Seq<char>, crate::json::JsonView)>,
    errors: Seq<Seq<char>>,
)
    ensures
        import_answer(rest, errors).bool_member("picked"@) == Some(true),
        import_answer(rest, errors).member("errors"@) == Some(texts_value(errors)),
{
    reveal_strlit("picked");
    reveal_strlit("errors");
    assert("picked"@[0] != "errors"@[0]);
    let entries = rest + seq![
        ("picked"@, crate::json::JsonView::Bool(true)),
        ("errors"@, texts_value(errors)),
    ];
    crate::json::lemma_entries_map_at(entries, rest.len() as int);
    crate::json::lemma_entries_map_at(entries, rest.len() as int + 1);
}

/// A file as a page sends it.
pub open spec fn sent_file(name: Seq<char>, content: Seq<char>) -> crate::json::JsonView {
    crate::json::object(
        seq![
            ("name"@, crate::json::JsonView::Text(name)),
            ("content"@, crate::json::JsonView::Text(content)),
        ],
    )
}

/// The course of an export: what is written of it, and where, if anything, and how it ends.
pub open spec fn export_course(
    source: Source<Seq<char>>,
    path: Seq<char>,
    password: Seq<char>,
    bundle: Result<(u64, crate::json::JsonView), Seq<char>>,
    sealed: Result<crate::json::JsonView, Seq<char>>,
    stored: Result<(), Seq<char>>,
) -> (Option<(Seq<char>, Seq<char>)>, crate::step::StepView) {
    match with_bundle(source, path, password, bundle) {
        Step::Seal { payload, password: p, path: to, count } => match with_sealed(
            to,
            count,
            sealed,
        ) {
            Step::WriteExport { path: at, body, count: c } => (
                Some((at, body)),
                after_write(at, c, stored),
            ),
            end => (None, end),
        },
        end => (None, end),
    }
}

/// An export writes one file at most, at the path that the command names, and it holds the sealed
/// bundle. It says that it saved exactly where the accounts were there, the bundle was sealed and
/// the file was written, and else why not.
pub proof fn law_course_of_an_export(
    source: Source<Seq<char>>,
    path: Seq<char>,
    password: Seq<char>,
    bundle: Result<(u64, crate::json::JsonView), Seq<char>>,
    sealed: Result<crate::json::JsonView, Seq<char>>,
    stored: Result<(), Seq<char>>,
)
    ensures
        export_course(source, path, password, bundle, sealed, stored) == match bundle {
            Err(e) => (None, crate::step::failed(Failure::Text(e))),
            Ok((count, payload)) => if count == 0 {
                (None, crate::step::failed(Failure::NoAccountToWrite))
            } else {
                match sealed {
                    Err(e) => (None, crate::step::failed(Failure::Text(e))),
                    Ok(v) => (
                        Some((path, export_body(v))),
                        match stored {
                            Ok(u) => crate::step::ended(
                                export_answer(
                                    path,
                                    if source is All {
                                        Some(count)
                                    } else {
                                        None
                                    },
                                ),
                            ),
                            Err(e) => crate::step::failed(Failure::CannotWrite(e)),
                        },
                    ),
                }
            },
        },
{
}

/// What an export wrote can be imported: a page that sends the file back, under whatever name, is
/// told that it can be opened, and gets the value that was sealed.
pub proof fn law_export_can_be_imported(
    name: Seq<char>,
    sealed: crate::json::JsonView,
    bundle: Seq<char>,
)
    requires
        crate::json::reads_as(export_body(sealed), sealed),
        sealed.text_member("format"@) == Some(bundle),
    ensures
        verdict(candidate_of(sent_file(name, export_body(sealed))), true, bundle) == Ok::<
            (Seq<char>, crate::json::JsonView),
            Failure<Seq<char>>,
        >((name, sealed)),
{
    reveal_strlit("name");
    reveal_strlit("content");
    assert("name"@.len() == 4 && "content"@.len() == 7);
    let entries = seq![
        ("name"@, crate::json::JsonView::Text(name)),
        ("content"@, crate::json::JsonView::Text(export_body(sealed))),
    ];
    crate::json::lemma_entries_map_at(entries, 0);
    crate::json::lemma_entries_map_at(entries, 1);
}

/// The files that a page was told can be opened are taken when it hands them back.
pub proof fn law_picked_files_can_be_handed_back(v: Seq<(Seq<char>, crate::json::JsonView)>)
    ensures
        named_values(pairs_value(v)) == Some(v),
{
    let a = Seq::new(v.len(), |i: int| pair_value(v[i]));
    assert forall|i: int| 0 <= i < a.len() implies named_value(#[trigger] a[i]) == Some(v[i]) by {
        assert(a[i] == pair_value(v[i]));
    }
    assert(Seq::new(a.len(), |i: int| named_value(a[i])->0) =~= v);
}

// Laws of what is kept, in terms of what was sent.

/// Whether something went well.
pub open spec fn is_good<T, E>() -> spec_fn(Result<T, E>) -> bool {
    |r: Result<T, E>| r is Ok
}

/// Whether something went wrong.
pub open spec fn is_bad<T, E>() -> spec_fn(Result<T, E>) -> bool {
    |r: Result<T, E>| r is Err
}

/// Each thing that went well stands, as it is, behind exactly those that went well before it, each
/// that went wrong behind exactly those that went wrong before it, and nothing else is there.
pub proof fn law_each_stands_in_its_place<T, E>(s: Seq<Result<T, E>>, i: int)
    ensures
        successes(s).len() == s.filter(is_good()).len(),
        failures(s).len() == s.filter(is_bad()).len(),
        0 <= i < s.len() && s[i] is Ok ==> s.take(i).filter(is_good()).len() < successes(s).len()
            && successes(s)[s.take(i).filter(is_good()).len() as int] == s[i]->Ok_0,
        0 <= i < s.len() && s[i] is Err ==> s.take(i).filter(is_bad()).len() < failures(s).len()
            && failures(s)[s.take(i).filter(is_bad()).len() as int] == s[i]->Err_0,
    decreases s.len(),
{
    reveal(Seq::filter);
    if s.len() > 0 {
        let before = s.drop_last();
        law_each_stands_in_its_place(before, i);
        if 0 <= i < s.len() - 1 {
            assert(before.take(i) =~= s.take(i));
        } else if i == s.len() - 1 {
            assert(s.take(i) =~= before);
        }
    }
}

/// What went well of two lists, one behind the other, is what went well of the first and then of
/// the second, and so for what went wrong; one thing is kept on its own side, once.
pub proof fn law_parts_are_kept_in_order<T, E>(
    a: Seq<Result<T, E>>, b: Seq<Result<T, E>>, t: T, e: E)
    ensures
        successes(a + b) == successes(a) + successes(b),
        failures(a + b) == failures(a) + failures(b),
        successes(seq![Ok::<T, E>(t)]) == seq![t],
        failures(seq![Ok::<T, E>(t)]).len() == 0,
        successes(seq![Err::<T, E>(e)]).len() == 0,
        failures(seq![Err::<T, E>(e)]) == seq![e],
    decreases b.len(),
{
    reveal_with_fuel(successes, 2);
    reveal_with_fuel(failures, 2);
    assert(seq![Ok::<T, E>(t)].drop_last() =~= Seq::empty());
    assert(seq![Err::<T, E>(e)].drop_last() =~= Seq::empty());
    assert(successes(seq![Ok::<T, E>(t)]) =~= seq![t]);
    assert(failures(seq![Err::<T, E>(e)]) =~= seq![e]);
    if b.len() == 0 {
        assert(a + b =~= a);
        assert(successes(a) + successes(b) =~= successes(a));
        assert(failures(a) + failures(b) =~= failures(a));
    } else {
        assert((a + b).drop_last() =~= a + b.drop_last());
        law_parts_are_kept_in_order(a, b.drop_last(), t, e);
        assert(successes(a + b) =~= successes(a) + successes(b));
        assert(failures(a + b) =~= failures(a) + failures(b));
    }
}

/// A sealed file that was opened is imported under its name with what it holds; one that was not is
/// told of with its name and the reason.
pub proof fn law_opened_files(files: Seq<(String, Result<Json, String>)>, i: int)
    requires
        0 <= i < files.len(),
    ensures
        openings(files).len() == files.len(),
        files[i].1 matches Ok(v) ==> successes(openings(files))[openings(files).take(i).filter(
            is_good(),
        ).len() as int] == (files[i].0@, v@),
        files[i].1 matches Err(e) ==> failures(openings(files))[openings(files).take(i).filter(
            is_bad(),
        ).len() as int] == (Failure::CannotOpen { file: files[i].0@, reason: e@ }),
{
    assert(openings(files)[i] == opening(files[i]));
    law_each_stands_in_its_place(openings(files), i);
}

/// A file can be opened exactly where it holds JSON, is sealed, and names the format of a bundle;
/// it is then handed on with its name and what it holds. Else the first thing that is amiss is
/// told, with the name of the file.
pub proof fn law_verdict(
    name: Seq<char>,
    v: crate::json::JsonView,
    e: Seq<char>,
    sealed: bool,
    bundle: Seq<char>,
)
    ensures
        sealed && v.text_member("format"@) == Some(bundle) ==> verdict(
            Candidate { name, contents: Contents::Value(v) },
            sealed,
            bundle,
        ) == Ok::<(Seq<char>, crate::json::JsonView), Failure<Seq<char>>>((name, v)),
        sealed && v.text_member("format"@) != Some(bundle) ==> (verdict(
            Candidate { name, contents: Contents::Value(v) },
            sealed,
            bundle,
        ) matches Err(f) && f == (Failure::<Seq<char>>::NotBundle { file: name })),
        !sealed ==> (verdict(
            Candidate { name, contents: Contents::Value(v) },
            sealed,
            bundle,
        ) matches Err(f) && f == (Failure::<Seq<char>>::NotSealed { file: name })),
        verdict(Candidate { name, contents: Contents::NotJson(e) }, sealed, bundle) matches Err(f)
            && f
            == (Failure::<Seq<char>>::NotJson { file: name, reason: e }),
        verdict(Candidate { name, contents: Contents::Missing }, sealed, bundle) matches Err(f) && f
            == (Failure::<Seq<char>>::CannotRead { file: name, reason: "no content"@ }),
{
}

/// Each file that was sent is judged by itself, in its place.
pub proof fn law_each_file_is_judged(
    files: Seq<(Candidate<String, Json>, bool)>,
    bundle: Seq<char>,
    i: int,
)
    requires
        0 <= i < files.len(),
    ensures
        verdicts(files, bundle).len() == files.len(),
        verdict(candidate_view(files[i].0), files[i].1, bundle) matches Ok(p) ==> successes(
            verdicts(files, bundle),
        )[verdicts(files, bundle).take(i).filter(is_good()).len() as int] == p,
        verdict(candidate_view(files[i].0), files[i].1, bundle) matches Err(f) ==> failures(
            verdicts(files, bundle),
        )[verdicts(files, bundle).take(i).filter(is_bad()).len() as int] == f,
{
    assert(verdicts(files, bundle)[i] == verdict(candidate_view(files[i].0), files[i].1, bundle));
    law_each_stands_in_its_place(verdicts(files, bundle), i);
}

/// A file that is sent has the name under `name`, or the empty one, and holds what the text under
/// `content` is read as; it is no JSON where that cannot be read, and missing where there is none.
pub proof fn law_sent_files(f: crate::json::JsonView, name: Seq<char>, text: Seq<char>)
    ensures
        f.text_member("name"@) == Some(name) ==> candidate_of(f).name == name,
        f.text_member("name"@) is None ==> candidate_of(f).name.len() == 0,
        f.text_member("content"@) is None ==> candidate_of(f).contents is Missing,
        f.text_member("content"@) == Some(text) ==> match crate::json::parsed_text(text) {
            Ok(v) => candidate_of(f).contents matches Contents::Value(w) && w == v,
            Err(e) => candidate_of(f).contents matches Contents::NotJson(w) && w == e,
        },
{
}

/// The files that are sent are those of an array, in order; nothing else holds a file.
pub proof fn law_sent_list(files: crate::json::JsonView, i: int)
    ensures
        !(files is Array) ==> candidates_of(files).len() == 0,
        files matches crate::json::JsonView::Array(a)
            ==> candidates_of(files).len() == a.len() && (0
            <= i < a.len() ==> candidates_of(files)[i] == candidate_of(a[i])),
{
}

/// A list of sealed files is an array, each element an array of a text and a value; anything else
/// is none.
pub proof fn law_sealed_list(
    a: Seq<crate::json::JsonView>,
    v: crate::json::JsonView,
    i: int,
    name: Seq<char>,
    value: crate::json::JsonView,
)
    ensures
        !(v is Array) ==> named_values(v) is None && named_value(v) is None,
        named_value(
            crate::json::JsonView::Array(seq![crate::json::JsonView::Text(name), value]),
        ) == Some((name, value)),
        a.len() != 2 ==> named_value(crate::json::JsonView::Array(a)) is None,
        a.len() == 2 && !(a[0] is Text) ==> named_value(crate::json::JsonView::Array(a)) is None,
        0 <= i < a.len() && named_value(a[i]) is None ==> named_values(
            crate::json::JsonView::Array(a),
        ) is None,
        (forall|k: int| 0 <= k < a.len() ==> named_value(#[trigger] a[k]) is Some)
            ==> (named_values(
            crate::json::JsonView::Array(a),
        ) matches Some(l) && l.len() == a.len() && (0 <= i < a.len() ==> named_value(a[i]) == Some(
            l[i],
        ))),
{
}

/// Names and values, and texts, are shown in order: a pair as an array of the name and the value.
pub proof fn law_shown_lists(
    v: Seq<(Seq<char>, crate::json::JsonView)>,
    t: Seq<Seq<char>>,
    i: int,
)
    ensures
        pairs_value(v) matches crate::json::JsonView::Array(a) && a.len() == v.len() && (0 <= i
            < v.len() ==> (a[i] matches crate::json::JsonView::Array(p) && p.len() == 2 && p[0]
            == crate::json::JsonView::Text(v[i].0) && p[1] == v[i].1)),
        texts_value(t) matches crate::json::JsonView::Array(a) && a.len() == t.len() && (0 <= i
            < t.len() ==> a[i] == crate::json::JsonView::Text(t[i])),
{
}

/// A bundle without an account is not written, and one that could not be made is told why; else it
/// is sealed as it is, with the password and for the path of the command, and its accounts are
/// counted exactly where all are exported.
pub proof fn law_bundle(
    id: Seq<char>,
    path: Seq<char>,
    password: Seq<char>,
    count: u64,
    payload: crate::json::JsonView,
    e: Seq<char>,
    source: Source<Seq<char>>,
)
    ensures
        count > 0 ==> with_bundle(Source::All, path, password, Ok((count, payload))) == (Step::<
            Seq<char>,
            crate::json::JsonView,
        >::Seal { payload, password, path, count: Some(count) }),
        count > 0
            ==> with_bundle(Source::One { id }, path, password, Ok((count, payload))) == (Step::<
            Seq<char>,
            crate::json::JsonView,
        >::Seal { payload, password, path, count: None }),
        with_bundle(source, path, password, Ok((0, payload))) == crate::step::failed(
            Failure::NoAccountToWrite,
        ),
        with_bundle(source, path, password, Err(e)) == crate::step::failed(Failure::Text(e)),
{
}

/// A sealed bundle is written to the path as its indented text and a line feed.
pub proof fn law_sealed_bundle(
    path: Seq<char>,
    count: Option<u64>,
    sealed: crate::json::JsonView,
    e: Seq<char>,
)
    ensures
        with_sealed(path, count, Ok(sealed)) matches Step::WriteExport { path: p, body, count: c }
            && p
            == path && c == count && body == crate::json::pretty_text(sealed).push('\n'),
        with_sealed(path, count, Err(e)) == crate::step::failed(Failure::Text(e)),
{
    reveal_strlit("\n");
    assert(export_body(sealed) =~= crate::json::pretty_text(sealed).push('\n'));
}

/// The answer to an export that was written says so, and where, and of an export of all how many
/// accounts; one that could not be written says why.
pub proof fn law_written_export(path: Seq<char>, e: Seq<char>, count: Option<u64>, other: Seq<char>)
    ensures
        after_write(path, count, Ok(())) matches Step::Done(d) && d.note is None && d.emit is None
            && (d.result matches Ok(v) && {
            &&& v.bool_member("saved"@) == Some(true)
            &&& v.text_member("path"@) == Some(path)
            &&& count matches Some(n) ==> v.member("count"@) == Some(
                crate::json::JsonView::Number(crate::json::number_of(n)),
            )
            &&& count is None ==> v.member("count"@) is None
            &&& other != "saved"@ && other != "path"@ && other != "count"@
                ==> v.member(other) is None
        }),
        after_write(path, count, Err(e)) == crate::step::failed(Failure::CannotWrite(e)),
{
    reveal_strlit("saved");
    reveal_strlit("path");
    reveal_strlit("count");
    assert("saved"@[0] == 's' && "count"@[0] == 'c' && "path"@[0] == 'p');
    let all = seq![
        ("saved"@, crate::json::JsonView::Bool(true)),
        ("path"@, crate::json::JsonView::Text(path)),
        ("count"@, crate::json::JsonView::Number(crate::json::number_of(count->0))),
    ];
    crate::json::lemma_entries_map_at(all, 0);
    crate::json::lemma_entries_map_at(all, 1);
    crate::json::lemma_entries_map_at(all, 2);
    crate::json::lemma_entries_map(all, other);
    let one = seq![
        ("saved"@, crate::json::JsonView::Bool(true)),
        ("path"@, crate::json::JsonView::Text(path)),
    ];
    crate::json::lemma_entries_map_at(one, 0);
    crate::json::lemma_entries_map_at(one, 1);
    crate::json::lemma_entries_map(one, "count"@);
    crate::json::lemma_entries_map(one, other);
}

/// The answer to an import keeps every other member of the report.
pub proof fn law_report_is_kept(
    rest: Seq<(Seq<char>, crate::json::JsonView)>,
    errors: Seq<Seq<char>>,
    key: Seq<char>,
)
    requires
        key != "picked"@,
        key != "errors"@,
    ensures
        import_answer(rest, errors).member(key) == crate::json::object(rest).member(key),
{
    let one = rest.push(("picked"@, crate::json::JsonView::Bool(true)));
    crate::json::law_members_of_an_object(
        rest,
        "picked"@,
        crate::json::JsonView::Bool(true),
        key,
    );
    crate::json::law_members_of_an_object(one, "errors"@, texts_value(errors), key);
    assert(rest + seq![
        ("picked"@, crate::json::JsonView::Bool(true)),
        ("errors"@, texts_value(errors)),
    ] =~= one.push(("errors"@, texts_value(errors))));
}

/// The export of an account goes to a file of its cleaned name with the ending `.zsb`.
pub proof fn law_export_path(dir: Seq<char>, name: Seq<char>)
    ensures
        dir.len() > 0 && dir.last() != '/' ==> export_path(dir, name) == dir.push('/')
            + crate::api::file_name(name) + ".zsb"@,
        dir.len() == 0 || dir.last() == '/' ==> export_path(dir, name) == dir
            + crate::api::file_name(name) + ".zsb"@,
{
    reveal_strlit("/");
    assert(export_path(dir, name) =~= dir.push('/') + crate::api::file_name(
        name) + ".zsb"@ || export_path(
        dir,
        name,
    ) =~= dir + crate::api::file_name(name) + ".zsb"@);
    assert(dir + "/"@ + (crate::api::file_name(name) + ".zsb"@) =~= dir.push('/')
        + crate::api::file_name(name) + ".zsb"@);
    assert(dir + (crate::api::file_name(name) + ".zsb"@) =~= dir + crate::api::file_name(name)
        + ".zsb"@);
}

/// What is carried shows each of its parts, in order.
pub proof fn law_transfer_parts(
    v: Seq<(String, Json)>,
    c: Seq<Candidate<String, Json>>,
    f: Seq<Failure<String>>,
    i: int,
)
    ensures
        named_views(v).len() == v.len(),
        0 <= i < v.len() ==> named_views(v)[i] == (v[i].0@, v[i].1@),
        candidate_views(c).len() == c.len(),
        0 <= i < c.len() ==> candidate_views(c)[i] == candidate_view(c[i]),
        0 <= i < c.len() ==> candidate_view(c[i]).name == c[i].name@,
        0 <= i < c.len() ==> match c[i].contents {
            Contents::Missing => candidate_view(c[i]).contents is Missing,
            Contents::NotJson(e) => candidate_view(c[i]).contents matches Contents::NotJson(w) && w
                == e@,
            Contents::Value(j) => candidate_view(c[i]).contents matches Contents::Value(w)
                && w == j@,
        },
        failure_views(f).len() == f.len(),
        0 <= i < f.len() ==> failure_views(f)[i] == crate::failure::failure_view(f[i]),
{
}

} // verus!
