use dario::progress::{DecodeError, Progress};
use dario::saves::{
    apply_upload, check_body, check_upload, screen, strip_prefixes, Admission, Header, Reply,
};
use dario::web::Method;

fn header(name: &str, value: &str) -> Header {
    Header { name: name.as_bytes().to_vec(), value: value.as_bytes().to_vec() }
}

#[test]
fn players_are_named_by_the_path() {
    let ok = screen(Method::Get, b"/api/progress/alex?x=1", &[]);
    assert_eq!(ok, Ok(Admission { profile: b"alex".to_vec(), put: false }));
    let put = screen(Method::Put, b"/api/progress/sam_2-b", &[]);
    assert_eq!(put, Ok(Admission { profile: b"sam_2-b".to_vec(), put: true }));
    // The prefix is removed however often it repeats.
    let twice = screen(Method::Get, b"/api/progress//api/progress/zoe", &[]);
    assert_eq!(twice, Ok(Admission { profile: b"zoe".to_vec(), put: false }));
    let repeated = screen(Method::Get, b"/api/progress//api/progress/", &[]);
    assert_eq!(repeated, Err(Reply::BadName));
    assert_eq!(
        strip_prefixes(b"/api/progress//api/progress/zoe", b"/api/progress/"),
        b"zoe".to_vec()
    );
    assert_eq!(strip_prefixes(b"abab-x", b"ab"), b"-x".to_vec());
}

#[test]
fn bad_names_are_refused() {
    for url in [
        "/api/progress/",
        "/api/progress/Alex",
        "/api/progress/../etc",
        "/api/progress/a.json",
        "/api/progress/this-name-is-far-too-long",
    ] {
        assert_eq!(screen(Method::Get, url.as_bytes(), &[]), Err(Reply::BadName), "{url}");
    }
    assert!(screen(Method::Get, b"/api/progress/exactly-twenty-four-char", &[]).is_ok());
}

#[test]
fn upgrades_are_refused_first_and_other_methods_after_the_name() {
    let upgrade = [header("connection", "keep-alive, Upgrade ")];
    assert_eq!(
        screen(Method::Other, b"/api/progress/BAD", &upgrade),
        Err(Reply::UpgradeRefused)
    );
    let no_upgrade = [header("Connection", "keep-alive, upgraded")];
    assert_eq!(
        screen(Method::Other, b"/api/progress/alex", &no_upgrade),
        Err(Reply::MethodNotAllowed)
    );
    let elsewhere = [header("Upgrade", "websocket")];
    assert!(screen(Method::Get, b"/api/progress/alex", &elsewhere).is_ok());
}

#[test]
fn uploads_must_declare_json_and_a_length() {
    let json = [header("content-type", "application/json; charset=utf-8")];
    assert_eq!(check_upload(&json, Some(10)), Ok(()));
    assert_eq!(check_upload(&json, None), Err(Reply::LengthRequired));
    assert_eq!(check_upload(&json, Some(16 * 1024 + 1)), Err(Reply::TooLarge));
    let text = [header("Content-Type", "text/plain")];
    assert_eq!(check_upload(&text, Some(10)), Err(Reply::NotJson));
    assert_eq!(check_upload(&[], Some(10)), Err(Reply::NotJson));
    assert_eq!(check_body(&vec![0; 16 * 1024]), Ok(()));
    assert_eq!(check_body(&vec![0; 16 * 1024 + 1]), Err(Reply::TooLarge));
}

#[test]
fn uploads_merge_and_refusals_change_nothing() {
    let mut stored = Progress::default();
    stored.finish(0, 5_000, 10, false, false);
    let before = stored;
    let refused = apply_upload(&mut stored, Err(DecodeError::UnsupportedVersion(2)));
    assert_eq!(refused, Err(Reply::InvalidSave));
    assert_eq!(stored, before);
    let mut incoming = Progress::default();
    incoming.finish(1, 9_000, 20, true, false);
    assert_eq!(apply_upload(&mut stored, Ok(incoming)), Ok(()));
    assert!(stored.levels[0].cleared && stored.levels[1].cleared);
    assert_eq!(stored.unlocked(), 2);
}

#[test]
fn replies_carry_their_status_and_text() {
    assert_eq!(Reply::BadName.status(), 400);
    assert_eq!(Reply::Unreadable.status(), 409);
    assert_eq!(Reply::SaveFailed.message(), "Could not save progress. Please retry.");
    assert_eq!(Reply::MethodNotAllowed.status(), 405);
}
