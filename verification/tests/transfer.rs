//! Exports and imports.

use zaccounts_web::failure::Failure;
use zaccounts_web::json::Json;
use zaccounts_web::step::{Source, Step, TextStep};
use zaccounts_web::transfer::{
    counted, got_bundle, got_export_all_dir, got_export_dir, got_export_name,
    got_sealed, import_candidates, import_picked, imported, sealed_files, sort_candidates, sort_opened,
    write_sealed, written, Bundled, Contents, Imported,
};

fn json(text: &str) -> Json {
    Json::parse_text(text).unwrap()
}

fn text(s: &str) -> String {
    s.to_string()
}

fn result(step: TextStep) -> String {
    match step {
        Step::Done(d) => d.result.unwrap().to_text(),
        other => panic!("{:?}", other),
    }
}

fn failure(step: TextStep) -> Failure<String> {
    match step {
        Step::Done(d) => d.result.unwrap_err(),
        other => panic!("{:?}", other),
    }
}

#[test]
fn an_export_goes_to_the_clean_name_of_the_account() {
    assert!(matches!(
        got_export_name(Ok(text("a/b"))),
        Step::ExportDir { name } if name == "a/b"
    ));
    assert!(matches!(failure(got_export_name(Err(text("e")))), Failure::Text(e) if e == "e"));
    assert_eq!(
        result(got_export_dir(text("/a:b"), text("/d"))),
        "{\"name\":\"/a:b\",\"path\":\"/d/_a_b.zsb\",\"picked\":true}"
    );
    assert_eq!(
        result(got_export_dir(text(""), text("/d/"))),
        "{\"name\":\"\",\"path\":\"/d/.zsb\",\"picked\":true}"
    );
}

#[test]
fn an_export_of_all_needs_an_account() {
    assert!(matches!(failure(counted(Ok(0))), Failure::NothingToExport));
    assert!(matches!(counted(Ok(2)), Step::ExportAllDir { accounts: 2 }));
    assert!(matches!(failure(counted(Err(text("e")))), Failure::Text(e) if e == "e"));
    assert_eq!(
        result(got_export_all_dir(2, text("/d"))),
        "{\"count\":2,\"path\":\"/d/zcode-accounts.zsb\",\"picked\":true}"
    );
}

#[test]
fn a_bundle_is_sealed() {
    let bundle = |count: u64| Ok(Bundled { count, payload: json("[1]") });
    let one = || Source::One { id: text("1") };
    assert!(matches!(
        got_bundle(Source::All, text("p"), text("w"), bundle(3)),
        Step::Seal { payload, password, path, count: Some(3) }
            if payload.to_text() == "[1]" && password == "w" && path == "p"
    ));
    assert!(matches!(
        got_bundle(one(), text("p"), text("w"), bundle(1)),
        Step::Seal { count: None, .. }
    ));
    assert!(matches!(
        failure(got_bundle(Source::All, text("p"), text("w"), bundle(0))),
        Failure::NoAccountToWrite
    ));
    assert!(matches!(
        failure(got_bundle(one(), text("p"), text("w"), Err(text("gone")))),
        Failure::Text(e) if e == "gone"
    ));
}

#[test]
fn a_sealed_bundle_is_written() {
    match got_sealed(text("p"), None, Ok(json(r#"{"format":"f"}"#))) {
        Step::WriteExport { path, body, count } => {
            assert_eq!(path, "p");
            assert_eq!(body, "{\n  \"format\": \"f\"\n}\n");
            assert_eq!(count, None);
        }
        other => panic!("{:?}", other),
    }
    assert!(matches!(
        failure(got_sealed(text("p"), None, Err(text("e")))),
        Failure::Text(e) if e == "e"
    ));
    assert!(matches!(
        write_sealed(text("p"), Some(1), "{}"),
        Step::WriteExport { path, body, count: Some(1) } if path == "p" && body == "{}\n"
    ));
    assert_eq!(result(written(text("p"), None, Ok(()))), "{\"path\":\"p\",\"saved\":true}");
    assert_eq!(
        result(written(text("p"), Some(2), Ok(()))),
        "{\"count\":2,\"path\":\"p\",\"saved\":true}"
    );
    assert!(matches!(
        failure(written(text("p"), None, Err(text("full")))),
        Failure::CannotWrite(e) if e == "full"
    ));
}

#[test]
fn sent_files_are_read() {
    let files = json(
        r#"[{"name":"a","content":"{\"format\":\"f\"}"},{"content":"{"},{"name":"c"},5]"#,
    );
    let list = import_candidates(&files);
    assert_eq!(list.len(), 4);
    assert_eq!(list[0].name, "a");
    assert!(matches!(&list[0].contents, Contents::Value(v) if v.to_text() == "{\"format\":\"f\"}"));
    assert_eq!(list[1].name, "");
    assert!(matches!(
        &list[1].contents,
        Contents::NotJson(e) if e == "EOF while parsing an object at line 1 column 1"
    ));
    assert!(matches!(list[2].contents, Contents::Missing));
    assert!(matches!(list[3].contents, Contents::Missing));
    assert!(import_candidates(&Json::Null).is_empty());
}

#[test]
fn each_sent_file_counts_once() {
    let files = json(
        r#"[{"name":"a","content":"{\"format\":\"f\"}"},{"name":"b","content":"{\"format\":\"g\"}"},
            {"name":"c","content":"1"},{"name":"d","content":"{"},{"name":"e"}]"#,
    );
    let judged = import_candidates(&files)
        .into_iter()
        .zip([true, true, false, false, false])
        .collect();
    let (good, bad) = sort_candidates(judged, "f");
    assert_eq!(good.len() + bad.len(), 5);
    assert_eq!(good[0].0, "a");
    assert_eq!(good[0].1.to_text(), "{\"format\":\"f\"}");
    assert!(matches!(&bad[0], Failure::NotBundle { file } if file == "b"));
    assert!(matches!(&bad[1], Failure::NotSealed { file } if file == "c"));
    assert!(matches!(&bad[2], Failure::NotJson { file, .. } if file == "d"));
    assert!(matches!(
        &bad[3],
        Failure::CannotRead { file, reason } if file == "e" && reason == "no content"
    ));
}

#[test]
fn an_export_can_be_imported() {
    let sealed = r#"{"format":"f","data":"x","n":3}"#;
    let body = match got_sealed(text("p"), None, Ok(json(sealed))) {
        Step::WriteExport { body, .. } => body,
        other => panic!("{:?}", other),
    };
    let files = Json::Array(vec![Json::Object(vec![
        (text("name"), Json::Text(text("mine.zsb"))),
        (text("content"), Json::Text(body)),
    ])]);
    let judged = import_candidates(&files).into_iter().map(|c| (c, true)).collect();
    let (good, bad) = sort_candidates(judged, "f");
    assert!(bad.is_empty());
    assert_eq!(good[0].0, "mine.zsb");
    assert_eq!(good[0].1.to_value(), json(sealed).to_value());
}

#[test]
fn picked_files_can_be_handed_back() {
    let step = import_picked(
        vec![(text("a"), json("{}")), (text("b"), json("[1]"))],
        vec![text("wrong")],
    );
    let answer = match step {
        Step::Done(d) => d.result.unwrap(),
        other => panic!("{:?}", other),
    };
    assert_eq!(
        answer.to_text(),
        "{\"errors\":[\"wrong\"],\"picked\":true,\"sealed\":[[\"a\",{}],[\"b\",[1]]]}"
    );
    let back = sealed_files(answer.get("sealed").unwrap()).unwrap();
    assert_eq!(back.len(), 2);
    assert_eq!(back[1].0, "b");
    assert_eq!(back[1].1.to_text(), "[1]");
}

#[test]
fn other_values_are_no_sealed_files() {
    assert!(sealed_files(&json("[]")).unwrap().is_empty());
    assert!(sealed_files(&json("null")).is_none());
    assert!(sealed_files(&json("[[\"a\"]]")).is_none());
    assert!(sealed_files(&json("[[\"a\",1,2]]")).is_none());
    assert!(sealed_files(&json("[[1,\"a\"]]")).is_none());
    assert!(sealed_files(&json("[{}]")).is_none());
}

#[test]
fn opened_files_are_parted() {
    let (good, bad) = sort_opened(vec![
        (text("a"), Err(text("password"))),
        (text("b"), Ok(json("1"))),
    ]);
    let good = good.unwrap();
    assert_eq!(good.len(), 1);
    assert_eq!(good[0].0, "b");
    assert!(matches!(
        &bad[0],
        Failure::CannotOpen { file, reason } if file == "a" && reason == "password"
    ));
    let (good, bad) = sort_opened(vec![(text("a"), Err(text("password")))]);
    assert!(good.is_none());
    assert_eq!(bad.len(), 1);
    assert!(sort_opened(vec![]).0.is_none());
}

#[test]
fn the_answer_to_an_import_is_complete() {
    let reply = Imported {
        rest: vec![(text("added"), Json::number(2)), (text("picked"), Json::Bool(false))],
        errors: vec![text("a")],
    };
    assert_eq!(
        result(imported(Ok(reply), vec![text("b"), text("c")])),
        "{\"added\":2,\"errors\":[\"a\",\"b\",\"c\"],\"picked\":true}"
    );
    assert!(matches!(
        failure(imported(Err(text("full")), vec![text("b")])),
        Failure::Text(e) if e == "full"
    ));
}

#[test]
fn the_course_of_an_export() {
    let run = |count: u64, sealed: Result<Json, String>, stored: Result<(), String>| {
        let bundle = Ok(Bundled { count, payload: json("[1]") });
        let step = match got_bundle(Source::All, text("p"), text("w"), bundle) {
            Step::Seal { path, count, .. } => got_sealed(path, count, sealed),
            end => return (None, end),
        };
        match step {
            Step::WriteExport { path, body, count } => {
                (Some((path.clone(), body)), written(path, count, stored))
            }
            end => (None, end),
        }
    };
    let file = Some((text("p"), text("{}\n")));
    let (wrote, end) = run(2, Ok(json("{}")), Ok(()));
    assert_eq!(wrote, file);
    assert_eq!(result(end), "{\"count\":2,\"path\":\"p\",\"saved\":true}");
    let (wrote, end) = run(2, Ok(json("{}")), Err(text("full")));
    assert_eq!(wrote, file);
    assert!(matches!(failure(end), Failure::CannotWrite(e) if e == "full"));
    let (wrote, end) = run(2, Err(text("weak")), Ok(()));
    assert_eq!(wrote, None);
    assert!(matches!(failure(end), Failure::Text(e) if e == "weak"));
    let (wrote, end) = run(0, Ok(json("{}")), Ok(()));
    assert_eq!(wrote, None);
    assert!(matches!(failure(end), Failure::NoAccountToWrite));
}
