//! Routing of the browser build's static files: only the known public game
//! files are ever served, and a URL never becomes a filesystem path.
use vstd::prelude::*;
use vstd::string::StringSliceAdditionalSpecFns;

use crate::text::{until, until_byte};

verus! {

/// The request methods the servers tell apart.
#[derive(Clone, Copy, Debug, PartialEq, Eq, Structural)]
pub enum Method {
    Get,
    Head,
    Put,
    Other,
}

/// Where a request for a static file goes.
#[derive(Clone, Copy, Debug, PartialEq, Eq, Structural)]
pub enum Route {
    /// 405: only GET and HEAD read files.
    MethodNotAllowed,
    /// 404: not one of the public game files.
    NotFound,
    /// The public game file at this index of `assets()`.
    Asset(usize),
}

/// The public game files, each with its content type.
pub open spec fn asset_table() -> Seq<(&'static str, &'static str)> {
    seq![
        ("index.html", "text/html; charset=utf-8"),
        ("dario.wasm", "application/wasm"),
        ("game.js", "text/javascript; charset=utf-8"),
        ("game.css", "text/css; charset=utf-8"),
        ("favicon.svg", "image/svg+xml"),
        ("vendor/mq_js_bundle.js", "text/javascript; charset=utf-8"),
        ("vendor/LICENSE-MIT", "text/plain; charset=utf-8"),
        ("vendor/LICENSE-APACHE", "text/plain; charset=utf-8"),
        ("vendor/NOTICE.txt", "text/plain; charset=utf-8"),
    ]
}

/// The public game files, each with its content type.
pub fn assets() -> (table: &'static [(&'static str, &'static str)])
    ensures
        table@ == asset_table(),
{
    &[
        ("index.html", "text/html; charset=utf-8"),
        ("dario.wasm", "application/wasm"),
        ("game.js", "text/javascript; charset=utf-8"),
        ("game.css", "text/css; charset=utf-8"),
        ("favicon.svg", "image/svg+xml"),
        ("vendor/mq_js_bundle.js", "text/javascript; charset=utf-8"),
        ("vendor/LICENSE-MIT", "text/plain; charset=utf-8"),
        ("vendor/LICENSE-APACHE", "text/plain; charset=utf-8"),
        ("vendor/NOTICE.txt", "text/plain; charset=utf-8"),
    ]
}

/// The byte `b'/'`.
pub open spec fn slash() -> u8 {
    47
}

/// The path of a URL: everything before its first `?`.
pub open spec fn url_path(url: Seq<u8>) -> Seq<u8> {
    until(url, 63)
}

/// The file a path names: `index.html` for the root, else the path without
/// its leading slash; a path without a leading slash names nothing.
pub open spec fn requested_name(path: Seq<u8>) -> Seq<u8> {
    if path == seq![slash()] {
        "index.html".spec_bytes()
    } else if path.len() > 0 && path[0] == slash() {
        path.drop_first()
    } else {
        Seq::empty()
    }
}

/// The first public file at or after index `i` whose name is exactly `name`.
pub open spec fn find_asset_from(name: Seq<u8>, i: nat) -> Option<nat>
    decreases asset_table().len() - i,
{
    if i >= asset_table().len() {
        None
    } else if asset_table()[i as int].0.spec_bytes() == name {
        Some(i)
    } else {
        find_asset_from(name, i + 1)
    }
}

/// Where `method` on `url` goes: the first public file whose name is exactly
/// the requested name, for GET and HEAD only.
pub open spec fn spec_route(method: Method, url: Seq<u8>) -> Route {
    if method != Method::Get && method != Method::Head {
        Route::MethodNotAllowed
    } else {
        match find_asset_from(requested_name(url_path(url)), 0) {
            Some(i) => Route::Asset(i as usize),
            None => Route::NotFound,
        }
    }
}

/// `find_asset_from` finds a listed name equal to `name`, or there is none.
pub proof fn lemma_find_asset_from(name: Seq<u8>, i: nat)
    requires
        i <= asset_table().len(),
    ensures
        find_asset_from(name, i) matches Some(k) ==> i <= k < asset_table().len()
            && asset_table()[k as int].0.spec_bytes() == name,
        find_asset_from(name, i) is None ==> forall|j: int|
            i <= j < asset_table().len() ==> #[trigger] asset_table()[j].0.spec_bytes() != name,
    decreases asset_table().len() - i,
{
    if i < asset_table().len() && asset_table()[i as int].0.spec_bytes() != name {
        lemma_find_asset_from(name, i + 1);
    }
}

/// URLs never become filesystem paths: a file is served only when its listed
/// name is exactly the name the URL asks for, and a URL that asks for no
/// listed name is not found.
pub proof fn law_only_listed_files_are_served(method: Method, url: Seq<u8>)
    ensures
        spec_route(method, url) matches Route::Asset(k) ==> k < asset_table().len()
            && asset_table()[k as int].0.spec_bytes() == requested_name(url_path(url)),
        (method == Method::Get || method == Method::Head) && (forall|j: int|
            0 <= j < asset_table().len() ==> #[trigger] asset_table()[j].0.spec_bytes()
                != requested_name(url_path(url))) ==> spec_route(method, url) == Route::NotFound,
{
    lemma_find_asset_from(requested_name(url_path(url)), 0);
}

/// An ASCII string's bytes are its characters.
proof fn lemma_ascii_bytes(s: &str)
    requires
        vstd::utf8::is_ascii_chars(s@),
    ensures
        s.spec_bytes().len() == s@.len(),
        forall|i: int| 0 <= i < s@.len() ==> #[trigger] s.spec_bytes()[i] == s@[i] as u8,
{
    vstd::utf8::is_ascii_chars_encode_utf8(s@);
}

/// The bytes of every public file's name: plain ASCII without a `?`, no two alike.
proof fn lemma_asset_names()
    ensures
        asset_table().len() == 9,
        forall|j: int, i: int|
            0 <= j < 9 && 0 <= i < asset_table()[j].0.spec_bytes().len()
                ==> #[trigger] asset_table()[j].0.spec_bytes()[i] != 63,
        forall|j: int| 0 <= j < 9 ==> #[trigger] asset_table()[j].0.spec_bytes().len() >= 1,
        forall|j: int, k: int|
            0 <= j < 9 && 0 <= k < 9 && j != k ==> #[trigger] asset_table()[j].0.spec_bytes()
                != #[trigger] asset_table()[k].0.spec_bytes(),
{
    reveal_strlit("index.html");
    assert("index.html"@ =~= seq!['i', 'n', 'd', 'e', 'x', '.', 'h', 't', 'm', 'l']);
    lemma_ascii_bytes("index.html");
    assert(asset_table()[0].0.spec_bytes() =~= seq![105u8, 110, 100, 101, 120, 46, 104, 116, 109, 108]);
    reveal_strlit("dario.wasm");
    assert("dario.wasm"@ =~= seq!['d', 'a', 'r', 'i', 'o', '.', 'w', 'a', 's', 'm']);
    lemma_ascii_bytes("dario.wasm");
    assert(asset_table()[1].0.spec_bytes() =~= seq![100u8, 97, 114, 105, 111, 46, 119, 97, 115, 109]);
    reveal_strlit("game.js");
    assert("game.js"@ =~= seq!['g', 'a', 'm', 'e', '.', 'j', 's']);
    lemma_ascii_bytes("game.js");
    assert(asset_table()[2].0.spec_bytes() =~= seq![103u8, 97, 109, 101, 46, 106, 115]);
    reveal_strlit("game.css");
    assert("game.css"@ =~= seq!['g', 'a', 'm', 'e', '.', 'c', 's', 's']);
    lemma_ascii_bytes("game.css");
    assert(asset_table()[3].0.spec_bytes() =~= seq![103u8, 97, 109, 101, 46, 99, 115, 115]);
    reveal_strlit("favicon.svg");
    assert("favicon.svg"@ =~= seq!['f', 'a', 'v', 'i', 'c', 'o', 'n', '.', 's', 'v', 'g']);
    lemma_ascii_bytes("favicon.svg");
    assert(asset_table()[4].0.spec_bytes() =~= seq![102u8, 97, 118, 105, 99, 111, 110, 46, 115, 118, 103]);
    reveal_strlit("vendor/mq_js_bundle.js");
    assert("vendor/mq_js_bundle.js"@ =~= seq!['v', 'e', 'n', 'd', 'o', 'r', '/', 'm', 'q', '_', 'j', 's', '_', 'b', 'u', 'n', 'd', 'l', 'e', '.', 'j', 's']);
    lemma_ascii_bytes("vendor/mq_js_bundle.js");
    assert(asset_table()[5].0.spec_bytes() =~= seq![118u8, 101, 110, 100, 111, 114, 47, 109, 113, 95, 106, 115, 95, 98, 117, 110, 100, 108, 101, 46, 106, 115]);
    reveal_strlit("vendor/LICENSE-MIT");
    assert("vendor/LICENSE-MIT"@ =~= seq!['v', 'e', 'n', 'd', 'o', 'r', '/', 'L', 'I', 'C', 'E', 'N', 'S', 'E', '-', 'M', 'I', 'T']);
    lemma_ascii_bytes("vendor/LICENSE-MIT");
    assert(asset_table()[6].0.spec_bytes() =~= seq![118u8, 101, 110, 100, 111, 114, 47, 76, 73, 67, 69, 78, 83, 69, 45, 77, 73, 84]);
    reveal_strlit("vendor/LICENSE-APACHE");
    assert("vendor/LICENSE-APACHE"@ =~= seq!['v', 'e', 'n', 'd', 'o', 'r', '/', 'L', 'I', 'C', 'E', 'N', 'S', 'E', '-', 'A', 'P', 'A', 'C', 'H', 'E']);
    lemma_ascii_bytes("vendor/LICENSE-APACHE");
    assert(asset_table()[7].0.spec_bytes() =~= seq![118u8, 101, 110, 100, 111, 114, 47, 76, 73, 67, 69, 78, 83, 69, 45, 65, 80, 65, 67, 72, 69]);
    reveal_strlit("vendor/NOTICE.txt");
    assert("vendor/NOTICE.txt"@ =~= seq!['v', 'e', 'n', 'd', 'o', 'r', '/', 'N', 'O', 'T', 'I', 'C', 'E', '.', 't', 'x', 't']);
    lemma_ascii_bytes("vendor/NOTICE.txt");
    assert(asset_table()[8].0.spec_bytes() =~= seq![118u8, 101, 110, 100, 111, 114, 47, 78, 79, 84, 73, 67, 69, 46, 116, 120, 116]);
    assert(asset_table()[0].0.spec_bytes()[0] != asset_table()[1].0.spec_bytes()[0]);
}

/// Past index `i`, the search for `name` stops at the first listed file that has it.
proof fn lemma_find_asset_at(name: Seq<u8>, i: nat, k: nat)
    requires
        i <= k < asset_table().len(),
        asset_table()[k as int].0.spec_bytes() == name,
        forall|j: int| i <= j < k ==> #[trigger] asset_table()[j].0.spec_bytes() != name,
    ensures
        find_asset_from(name, i) == Some(k),
    decreases k - i,
{
    if i < k {
        lemma_find_asset_at(name, i + 1, k);
    }
}

/// A URL that is `/` and a name without `?` asks for exactly that name.
proof fn lemma_plain_url(name: Seq<u8>)
    requires
        name.len() >= 1,
        forall|i: int| 0 <= i < name.len() ==> #[trigger] name[i] != 63,
    ensures
        requested_name(url_path(seq![slash()] + name)) == name,
{
    let url = seq![slash()] + name;
    crate::text::lemma_find_from(url, 63, 0);
    if crate::text::find_from(url, 63, 0) < url.len() {
        let f = crate::text::find_from(url, 63, 0) as int;
        if f > 0 {
            assert(url[f] == name[f - 1]);
        }
    }
    assert(url_path(url) =~= url);
    assert(url.len() != seq![slash()].len());
    assert(url.drop_first() =~= name);
}

/// The public files are exactly the game's nine files: the page, the
/// WebAssembly module, its script and style, the icon, and the vendored
/// loader with its licences. Reading `/` followed by a file's name, with GET
/// or HEAD, serves that file with its content type; `/` alone is the page.
pub proof fn law_the_game_files_are_public(k: int)
    requires
        0 <= k < 9,
    ensures
        asset_table().len() == 9,
        spec_route(Method::Get, seq![slash()]) == Route::Asset(0),
        ({
            let files: Seq<(&'static str, &'static str)> = seq![
                ("index.html", "text/html; charset=utf-8"),
                ("dario.wasm", "application/wasm"),
                ("game.js", "text/javascript; charset=utf-8"),
                ("game.css", "text/css; charset=utf-8"),
                ("favicon.svg", "image/svg+xml"),
                ("vendor/mq_js_bundle.js", "text/javascript; charset=utf-8"),
                ("vendor/LICENSE-MIT", "text/plain; charset=utf-8"),
                ("vendor/LICENSE-APACHE", "text/plain; charset=utf-8"),
                ("vendor/NOTICE.txt", "text/plain; charset=utf-8"),
            ];
            &&& asset_table()[k] == files[k]
            &&& spec_route(Method::Get, seq![slash()] + files[k].0.spec_bytes()) == Route::Asset(k as usize)
            &&& spec_route(Method::Head, seq![slash()] + files[k].0.spec_bytes()) == Route::Asset(k as usize)
        }),
{
    lemma_asset_names();
    let name = asset_table()[k].0.spec_bytes();
    lemma_plain_url(name);
    lemma_find_asset_at(name, 0, k as nat);
    reveal_strlit("index.html");
    assert(url_path(seq![slash()]) =~= seq![slash()]) by {
        crate::text::lemma_find_from(seq![slash()], 63, 0);
    }
    lemma_find_asset_at(asset_table()[0].0.spec_bytes(), 0, 0);
}

/// The bytes of `a` equal those of `b`.
pub fn bytes_equal(a: &[u8], b: &[u8]) -> (same: bool)
    ensures
        same == (a@ == b@),
{
    if a.len() != b.len() {
        return false;
    }
    let mut k: usize = 0;
    while k < a.len()
        invariant
            a@.len() == b@.len(),
            k <= a@.len(),
            forall|j: int| 0 <= j < k ==> a@[j] == b@[j],
        decreases a@.len() - k,
    {
        if a[k] != b[k] {
            return false;
        }
        k = k + 1;
    }
    assert(a@ =~= b@);
    true
}

/// The file that `url` asks for.
pub fn name_of(url: &[u8]) -> (name: Vec<u8>)
    ensures
        name@ == requested_name(url_path(url@)),
{
    let path = until_byte(url, 63);
    if path.len() == 1 && path[0] == 47 {
        assert(path@ =~= seq![slash()]);
        let index = "index.html";
        let mut name: Vec<u8> = Vec::new();
        let bytes = index.as_bytes();
        let mut k: usize = 0;
        while k < bytes.len()
            invariant
                k <= bytes@.len(),
                name@ == bytes@.take(k as int),
            decreases bytes@.len() - k,
        {
            name.push(bytes[k]);
            assert(bytes@.take(k as int + 1) =~= bytes@.take(k as int).push(bytes@[k as int]));
            k = k + 1;
        }
        assert(bytes@.take(bytes@.len() as int) =~= bytes@);
        return name;
    }
    let mut name: Vec<u8> = Vec::new();
    if path.len() > 0 && path[0] == 47 {
        let mut k: usize = 1;
        while k < path.len()
            invariant
                1 <= k <= path@.len(),
                name@ == path@.subrange(1, k as int),
            decreases path@.len() - k,
        {
            name.push(path[k]);
            assert(path@.subrange(1, k as int + 1) =~= path@.subrange(1, k as int).push(
                path@[k as int],
            ));
            k = k + 1;
        }
        assert(path@.subrange(1, path@.len() as int) =~= path@.drop_first());
        assert(path@ != seq![slash()]);
    }
    name
}

/// Where `method` on `url` goes.
pub fn route(method: Method, url: &[u8]) -> (r: Route)
    ensures
        r == spec_route(method, url@),
{
    match method {
        Method::Get | Method::Head => {},
        _ => {
            return Route::MethodNotAllowed;
        },
    }
    let name = name_of(url);
    let table = assets();
    let mut k: usize = 0;
    while k < table.len()
        invariant
            method == Method::Get || method == Method::Head,
            table@ == asset_table(),
            k <= table@.len(),
            name@ == requested_name(url_path(url@)),
            find_asset_from(name@, 0) == find_asset_from(name@, k as nat),
        decreases table@.len() - k,
    {
        let (asset, _) = table[k];
        if bytes_equal(asset.as_bytes(), name.as_slice()) {
            assert(asset.spec_bytes() == name@);
            return Route::Asset(k);
        }
        k = k + 1;
    }
    Route::NotFound
}

} // verus!
