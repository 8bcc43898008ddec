//! The decisions of the save API, `/api/progress/<player>`: which requests are
//! refused and with what answer, which player a request is about, and how an
//! uploaded save is combined with the stored one.
use vstd::prelude::*;
use vstd::string::StringSliceAdditionalSpecFns;

use crate::progress::{max_u32, merge_levels, DecodeError, Progress, MAX_SAVE_BYTES};
use crate::text::{contains_token, has_token, same_ignoring_ascii_case, same_ignoring_case, until, until_byte};
use crate::web::{url_path, Method};

verus! {

/// Longest player name, in bytes.
pub const MAX_PROFILE_BYTES: usize = 24;

/// A request header: its name and its value, as sent.
#[derive(Debug, PartialEq, Eq)]
pub struct Header {
    pub name: Vec<u8>,
    pub value: Vec<u8>,
}

/// A refusal, with its status code and message.
#[derive(Clone, Copy, Debug, PartialEq, Eq, Structural)]
pub enum Reply {
    UpgradeRefused,
    BadName,
    MethodNotAllowed,
    Unreadable,
    NotJson,
    LengthRequired,
    TooLarge,
    InvalidSave,
    SaveFailed,
}

/// A request that may go on: the player it is about, and whether it uploads.
#[derive(Debug, PartialEq, Eq)]
pub struct Admission {
    pub profile: Vec<u8>,
    pub put: bool,
}

pub open spec fn reply_status(r: Reply) -> u16 {
    match r {
        Reply::UpgradeRefused => 400,
        Reply::BadName => 400,
        Reply::MethodNotAllowed => 405,
        Reply::Unreadable => 409,
        Reply::NotJson => 415,
        Reply::LengthRequired => 411,
        Reply::TooLarge => 413,
        Reply::InvalidSave => 400,
        Reply::SaveFailed => 503,
    }
}

pub open spec fn reply_message(r: Reply) -> &'static str {
    match r {
        Reply::UpgradeRefused => "Connection upgrades are not supported",
        Reply::BadName => "Use a player name of 1-24 lowercase letters, numbers, dashes or underscores.",
        Reply::MethodNotAllowed => "Method not allowed",
        Reply::Unreadable => "This save cannot be read. It has been preserved; choose another player or restore your backup.",
        Reply::NotJson => "Expected application/json",
        Reply::LengthRequired => "Content-Length required",
        Reply::TooLarge => "Save is too large",
        Reply::InvalidSave => "Invalid or unsupported save",
        Reply::SaveFailed => "Could not save progress. Please retry.",
    }
}

/// `s` with every leading copy of `p` removed.
pub open spec fn strip_all(s: Seq<u8>, p: Seq<u8>) -> Seq<u8>
    decreases s.len(),
{
    if p.len() > 0 && s.len() >= p.len() && s.take(p.len() as int) == p {
        strip_all(s.skip(p.len() as int), p)
    } else {
        s
    }
}

/// The player a URL is about: its path without the API prefix, however often repeated.
pub open spec fn profile_of(url: Seq<u8>) -> Seq<u8> {
    strip_all(url_path(url), "/api/progress/".spec_bytes())
}

/// Bytes allowed in a player name: lower-case letters, digits, dash, underscore.
pub open spec fn profile_byte(b: u8) -> bool {
    (97 <= b <= 122) || (48 <= b <= 57) || b == 45 || b == 95
}

/// A player name: one to `MAX_PROFILE_BYTES` allowed bytes.
pub open spec fn valid_profile(p: Seq<u8>) -> bool {
    1 <= p.len() <= MAX_PROFILE_BYTES && forall|i: int| 0 <= i < p.len() ==> #[trigger] profile_byte(p[i])
}

/// Some `Connection` header lists the `upgrade` token.
pub open spec fn upgrade_requested(headers: Seq<Header>) -> bool {
    exists|i: int|
        0 <= i < headers.len() && same_ignoring_case(#[trigger] headers[i].name@, "Connection".spec_bytes())
            && has_token(headers[i].value@, "upgrade".spec_bytes())
}

/// Some `Content-Type` header is `application/json`, parameters aside.
pub open spec fn json_declared(headers: Seq<Header>) -> bool {
    exists|i: int|
        0 <= i < headers.len() && same_ignoring_case(#[trigger] headers[i].name@, "Content-Type".spec_bytes())
            && until(headers[i].value@, 59) == "application/json".spec_bytes()
}

/// A valid player name holds no path separator and no dot, so the file it
/// names always lies directly in the save folder.
pub proof fn law_profile_names_are_plain(p: Seq<u8>)
    requires
        valid_profile(p),
    ensures
        forall|i: int| 0 <= i < p.len() ==> #[trigger] p[i] != 47 && p[i] != 46 && p[i] != 92,
{
    assert forall|i: int| 0 <= i < p.len() implies #[trigger] p[i] != 47 && p[i] != 46 && p[i] != 92 by {
        assert(profile_byte(p[i]));
    }
}

impl Reply {
    /// The HTTP status of the refusal.
    pub fn status(&self) -> (code: u16)
        ensures
            code == reply_status(*self),
    {
        match self {
            Reply::UpgradeRefused => 400,
            Reply::BadName => 400,
            Reply::MethodNotAllowed => 405,
            Reply::Unreadable => 409,
            Reply::NotJson => 415,
            Reply::LengthRequired => 411,
            Reply::TooLarge => 413,
            Reply::InvalidSave => 400,
            Reply::SaveFailed => 503,
        }
    }

    /// The text sent with the refusal.
    pub fn message(&self) -> (text: &'static str)
        ensures
            text == reply_message(*self),
    {
        match self {
            Reply::UpgradeRefused => "Connection upgrades are not supported",
            Reply::BadName => "Use a player name of 1-24 lowercase letters, numbers, dashes or underscores.",
            Reply::MethodNotAllowed => "Method not allowed",
            Reply::Unreadable => "This save cannot be read. It has been preserved; choose another player or restore your backup.",
            Reply::NotJson => "Expected application/json",
            Reply::LengthRequired => "Content-Length required",
            Reply::TooLarge => "Save is too large",
            Reply::InvalidSave => "Invalid or unsupported save",
            Reply::SaveFailed => "Could not save progress. Please retry.",
        }
    }
}

/// `s` with every leading copy of `p` removed.
pub fn strip_prefixes(s: &[u8], p: &[u8]) -> (rest: Vec<u8>)
    ensures
        rest@ == strip_all(s@, p@),
{
    let mut start: usize = 0;
    let n = s.len();
    assert(s@.skip(0) =~= s@);
    loop
        invariant
            n == s@.len(),
            start <= s@.len(),
            strip_all(s@, p@) == strip_all(s@.skip(start as int), p@),
        ensures
            start <= s@.len(),
            strip_all(s@, p@) == s@.skip(start as int),
        decreases s@.len() - start,
    {
        if p.len() == 0 || s.len() - start < p.len() {
            break;
        }
        let mut k: usize = 0;
        let mut same = true;
        while k < p.len()
            invariant
                n == s@.len(),
                start + p@.len() <= s@.len(),
                k <= p@.len(),
                same <==> forall|j: int| 0 <= j < k ==> s@[start + j] == p@[j],
            decreases p@.len() - k,
        {
            if s[start + k] != p[k] {
                same = false;
            }
            k = k + 1;
        }
        let ghost tail = s@.skip(start as int);
        if !same {
            assert(tail.take(p@.len() as int) != p@) by {
                let j = choose|j: int| 0 <= j < p@.len() && s@[start + j] != p@[j];
                assert(tail.take(p@.len() as int)[j] == s@[start + j]);
            }
            break;
        }
        assert(tail.take(p@.len() as int) =~= p@);
        assert(tail.skip(p@.len() as int) =~= s@.skip(start + p@.len()));
        start = start + p.len();
    }
    let mut rest: Vec<u8> = Vec::new();
    let mut k = start;
    while k < s.len()
        invariant
            start <= k <= s@.len(),
            rest@ == s@.subrange(start as int, k as int),
        decreases s@.len() - k,
    {
        rest.push(s[k]);
        assert(s@.subrange(start as int, k + 1) =~= s@.subrange(start as int, k as int).push(s@[k as int]));
        k = k + 1;
    }
    assert(s@.subrange(start as int, s@.len() as int) =~= s@.skip(start as int));
    rest
}

/// A player name: one to `MAX_PROFILE_BYTES` allowed bytes.
pub fn is_valid_profile(p: &[u8]) -> (valid: bool)
    ensures
        valid == valid_profile(p@),
{
    if p.len() == 0 || p.len() > MAX_PROFILE_BYTES {
        return false;
    }
    let mut k: usize = 0;
    while k < p.len()
        invariant
            1 <= p@.len() <= MAX_PROFILE_BYTES,
            k <= p@.len(),
            forall|j: int| 0 <= j < k ==> #[trigger] profile_byte(p@[j]),
        decreases p@.len() - k,
    {
        let b = p[k];
        if !((97 <= b && b <= 122) || (48 <= b && b <= 57) || b == 45 || b == 95) {
            assert(!profile_byte(p@[k as int]));
            return false;
        }
        k = k + 1;
    }
    true
}

/// Some `Connection` header lists the `upgrade` token.
pub fn asks_upgrade(headers: &[Header]) -> (asks: bool)
    ensures
        asks == upgrade_requested(headers@),
{
    let mut k: usize = 0;
    while k < headers.len()
        invariant
            k <= headers@.len(),
            forall|j: int|
                0 <= j < k ==> !(same_ignoring_case(#[trigger] headers@[j].name@, "Connection".spec_bytes())
                    && has_token(headers@[j].value@, "upgrade".spec_bytes())),
        decreases headers@.len() - k,
    {
        let h = &headers[k];
        if same_ignoring_ascii_case(h.name.as_slice(), "Connection".as_bytes()) && contains_token(
            h.value.as_slice(),
            "upgrade".as_bytes(),
        ) {
            return true;
        }
        k = k + 1;
    }
    false
}

/// Some `Content-Type` header is `application/json`, parameters aside.
pub fn declares_json(headers: &[Header]) -> (json: bool)
    ensures
        json == json_declared(headers@),
{
    let mut k: usize = 0;
    while k < headers.len()
        invariant
            k <= headers@.len(),
            forall|j: int|
                0 <= j < k ==> !(same_ignoring_case(#[trigger] headers@[j].name@, "Content-Type".spec_bytes())
                    && until(headers@[j].value@, 59) == "application/json".spec_bytes()),
        decreases headers@.len() - k,
    {
        let h = &headers[k];
        if same_ignoring_ascii_case(h.name.as_slice(), "Content-Type".as_bytes()) {
            let kind = until_byte(h.value.as_slice(), 59);
            if crate::web::bytes_equal(kind.as_slice(), "application/json".as_bytes()) {
                return true;
            }
        }
        k = k + 1;
    }
    false
}

/// The first checks on a request: no connection upgrade, a valid player
/// name, and GET or PUT, in that order.
pub fn screen(method: Method, url: &[u8], headers: &[Header]) -> (r: Result<Admission, Reply>)
    ensures
        upgrade_requested(headers@) ==> r == Err::<Admission, Reply>(Reply::UpgradeRefused),
        !upgrade_requested(headers@) && !valid_profile(profile_of(url@)) ==> r == Err::<
            Admission,
            Reply,
        >(Reply::BadName),
        !upgrade_requested(headers@) && valid_profile(profile_of(url@)) && method != Method::Get
            && method != Method::Put ==> r == Err::<Admission, Reply>(Reply::MethodNotAllowed),
        !upgrade_requested(headers@) && valid_profile(profile_of(url@)) && (method == Method::Get
            || method == Method::Put) ==> (r matches Ok(a) && a.profile@ == profile_of(url@) && a.put
            == (method == Method::Put)),
{
    if asks_upgrade(headers) {
        return Err(Reply::UpgradeRefused);
    }
    let path = until_byte(url, 63);
    let profile = strip_prefixes(path.as_slice(), "/api/progress/".as_bytes());
    if !is_valid_profile(profile.as_slice()) {
        return Err(Reply::BadName);
    }
    match method {
        Method::Get => Ok(Admission { profile, put: false }),
        Method::Put => Ok(Admission { profile, put: true }),
        _ => Err(Reply::MethodNotAllowed),
    }
}

/// The checks on an upload before its body is read: declared JSON, a
/// declared length, and not too long, in that order.
pub fn check_upload(headers: &[Header], body_length: Option<usize>) -> (r: Result<(), Reply>)
    ensures
        !json_declared(headers@) ==> r == Err::<(), Reply>(Reply::NotJson),
        json_declared(headers@) && body_length is None ==> r == Err::<(), Reply>(Reply::LengthRequired),
        json_declared(headers@) && (body_length matches Some(n) && n > MAX_SAVE_BYTES) ==> r == Err::<
            (),
            Reply,
        >(Reply::TooLarge),
        json_declared(headers@) && (body_length matches Some(n) && n <= MAX_SAVE_BYTES) ==> r is Ok,
{
    if !declares_json(headers) {
        return Err(Reply::NotJson);
    }
    match body_length {
        None => Err(Reply::LengthRequired),
        Some(n) => {
            if n > MAX_SAVE_BYTES {
                Err(Reply::TooLarge)
            } else {
                Ok(())
            }
        },
    }
}

/// The check on the body actually read: not longer than a save may be.
pub fn check_body(bytes: &[u8]) -> (r: Result<(), Reply>)
    ensures
        r is Ok <==> bytes@.len() <= MAX_SAVE_BYTES,
        r is Err ==> r == Err::<(), Reply>(Reply::TooLarge),
{
    if bytes.len() > MAX_SAVE_BYTES {
        Err(Reply::TooLarge)
    } else {
        Ok(())
    }
}

/// Combines a decoded upload with the stored save: a save that did not decode
/// is refused and changes nothing; one that did is merged in.
pub fn apply_upload(stored: &mut Progress, upload: Result<Progress, DecodeError>) -> (r: Result<(), Reply>)
    ensures
        upload is Err ==> r == Err::<(), Reply>(Reply::InvalidSave) && *final(stored) == *old(stored),
        upload matches Ok(p) ==> {
            &&& r is Ok
            &&& final(stored).levels@ == merge_levels(old(stored).levels@, p.levels@)
            &&& final(stored).version == old(stored).version
            &&& final(stored).arcade_best == max_u32(old(stored).arcade_best, p.arcade_best)
            &&& final(stored).muted == p.muted
        },
{
    match upload {
        Ok(incoming) => {
            stored.merge(&incoming);
            Ok(())
        },
        Err(_) => Err(Reply::InvalidSave),
    }
}

} // verus!
