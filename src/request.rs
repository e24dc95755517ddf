use vstd::prelude::*;

verus! {

/// The API actions the service offers.
#[derive(Debug, Clone, Copy, PartialEq, Eq, Structural)]
pub enum Action {
    /// The daily quota of the key (`LIMIT`) and what is left of it (`REMAINING`).
    GetLimit,
    /// The raw content of one sample.
    GetFile,
    /// The hashes of the last 24 hours, as JSON.
    GetList,
    /// The hashes of the last 24 hours, as plain text.
    GetListRaw,
    /// The metadata of one sample, as JSON.
    Details,
}

/// The value of the `action` query parameter for `a`.
pub open spec fn action_text(a: Action) -> Seq<char> {
    match a {
        Action::GetLimit => "getlimit"@,
        Action::GetFile => "getfile"@,
        Action::GetList => "getlist"@,
        Action::GetListRaw => "getlistraw"@,
        Action::Details => "details"@,
    }
}

/// The endpoint and the name of the key parameter.
pub open spec fn endpoint_prefix() -> Seq<char> {
    "https://malshare.com/api.php?api_key="@
}

/// The URL of a request: key and hash are passed through unaltered.
pub open spec fn url_of(api_key: Seq<char>, action: Action, hash: Option<Seq<char>>) -> Seq<char> {
    let base = endpoint_prefix() + api_key + "&action="@ + action_text(action);
    match hash {
        Some(h) => base + "&hash="@ + h,
        None => base,
    }
}

/// The `action` query parameter's value for `a`.
pub fn action_name(a: Action) -> (r: &'static str)
    ensures
        r@ == action_text(a),
{
    match a {
        Action::GetLimit => "getlimit",
        Action::GetFile => "getfile",
        Action::GetList => "getlist",
        Action::GetListRaw => "getlistraw",
        Action::Details => "details",
    }
}

/// Builds the GET URL for `action` with the given key and, where the action
/// names a sample, its hash.
pub fn request_url(api_key: &str, action: Action, hash: Option<&str>) -> (r: String)
    ensures
        r@ == url_of(api_key@, action, match hash {
            Some(h) => Some(h@),
            None => None,
        }),
{
    let mut url = String::from_str("https://malshare.com/api.php?api_key=");
    url.append(api_key);
    url.append("&action=");
    url.append(action_name(action));
    match hash {
        Some(h) => {
            url.append("&hash=");
            url.append(h);
        },
        None => {},
    }
    url
}

/// Two requests of one action that differ in the hash have different URLs,
/// so lookups of distinct samples never address the same resource.
pub proof fn lemma_distinct_hashes_distinct_urls(
    api_key: Seq<char>,
    action: Action,
    h1: Seq<char>,
    h2: Seq<char>,
)
    requires
        h1 != h2,
    ensures
        url_of(api_key, action, Some(h1)) != url_of(api_key, action, Some(h2)),
{
    let p = endpoint_prefix() + api_key + "&action="@ + action_text(action) + "&hash="@;
    let u1 = url_of(api_key, action, Some(h1));
    let u2 = url_of(api_key, action, Some(h2));
    assert(u1 =~= p + h1);
    assert(u2 =~= p + h2);
    if u1 == u2 {
        assert(h1 =~= u1.subrange(p.len() as int, u1.len() as int));
        assert(h2 =~= u2.subrange(p.len() as int, u2.len() as int));
    }
}

} // verus!
