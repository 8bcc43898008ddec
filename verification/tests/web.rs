use dario::web::{assets, route, Method, Route};

#[test]
fn serves_the_game_and_wasm_ignoring_query_strings() {
    let index = route(Method::Get, b"/?version=1");
    assert_eq!(index, Route::Asset(0));
    assert_eq!(assets()[0], ("index.html", "text/html; charset=utf-8"));
    let wasm = route(Method::Get, b"/dario.wasm?version=1");
    assert_eq!(wasm, Route::Asset(1));
    assert_eq!(assets()[1].1, "application/wasm");
    assert_eq!(route(Method::Head, b"/dario.wasm"), Route::Asset(1));
    assert_eq!(route(Method::Get, b"/vendor/NOTICE.txt"), Route::Asset(8));
}

#[test]
fn private_files_and_traversal_are_not_found() {
    for path in [
        "/private.txt",
        "/../private.txt",
        "/%2e%2e/private.txt",
        "/vendor/../../private.txt",
        "/target/web/private.txt",
        "/vendor/",
        "",
        "index.html",
        "//index.html",
    ] {
        assert_eq!(route(Method::Get, path.as_bytes()), Route::NotFound, "{path}");
    }
}

#[test]
fn writes_are_not_allowed() {
    assert_eq!(route(Method::Put, b"/"), Route::MethodNotAllowed);
    assert_eq!(route(Method::Other, b"/dario.wasm"), Route::MethodNotAllowed);
}
