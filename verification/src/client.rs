//! How the session service is addressed: where it is, and the paths of its
//! resources.

use crate::config::DEFAULT_JULES_API_BASE;
use crate::text::{joined, decimal_of, push_decimal, strip_prefix, without_prefix};
use crate::types::error::ApiError;
use vstd::prelude::*;
use vstd::string::StringSliceAdditionalSpecFns;

verus! {

/// Who asks the service, and where.
#[derive(Debug, Clone)]
pub struct JulesConfig {
    pub api_key: String,
    pub base_url: String,
}

impl Default for JulesConfig {
    fn default() -> (r: Self)
        ensures
            r.api_key@ == Seq::<char>::empty(),
            r.base_url@ == DEFAULT_JULES_API_BASE@,
    {
        JulesConfig { api_key: String::new(), base_url: DEFAULT_JULES_API_BASE.to_owned() }
    }
}

/// How many items a page has where none is asked for.
pub const DEFAULT_PAGE_SIZE: u32 = 30;

/// A byte that stands for itself in an address: a letter or digit of ASCII,
/// or one of `-`, `.`, `_`, `~`.
pub open spec fn unreserved(b: u8) -> bool {
    (0x30 <= b <= 0x39) || (0x41 <= b <= 0x5a) || (0x61 <= b <= 0x7a) || b == 0x2d || b == 0x2e
        || b == 0x5f || b == 0x7e
}

/// The hexadecimal digit of `n`, letters in uppercase.
pub open spec fn hex_digit_of(n: u8) -> char
    recommends
        n < 16,
{
    if n < 10 {
        (0x30 + n) as char
    } else {
        (0x41 + n - 10) as char
    }
}

/// The bytes `bytes` as they stand in an address: each byte that does not
/// stand for itself is written as `%` and its two hexadecimal digits.
pub open spec fn percent_encoded(bytes: Seq<u8>) -> Seq<char>
    decreases bytes.len(),
{
    if bytes.len() == 0 {
        Seq::empty()
    } else {
        let b = bytes.last();
        percent_encoded(bytes.drop_last()) + (if unreserved(b) {
            seq![b as char]
        } else {
            seq!['%', hex_digit_of(b / 16), hex_digit_of(b % 16)]
        })
    }
}

/// `urlencoding::encode`: the bytes of `data` in UTF-8, each written as
/// itself where it is a letter or digit of ASCII or one of `-`, `.`, `_`,
/// `~`, and else as `%` and its two hexadecimal digits in uppercase. This
/// is believed of the crate, not proved.
#[verifier::external_body]
pub(crate) fn url_encode(data: &str) -> (r: String)
    ensures
        r@ == percent_encoded(data.spec_bytes()),
{
    urlencoding::encode(data).into_owned()
}

/// The part of a path that asks for a page: its size, `DEFAULT_PAGE_SIZE`
/// where none is given, and where it starts, if that is given.
pub open spec fn page_query(page_size: Option<u32>, page_token: Option<Seq<char>>) -> Seq<char> {
    "?pageSize="@ + decimal_of(
        (match page_size {
            Some(n) => n,
            None => DEFAULT_PAGE_SIZE,
        }) as nat,
    ) + (match page_token {
        Some(token) => "&pageToken="@ + token,
        None => Seq::empty(),
    })
}

/// The view of an optional string slice.
pub open spec fn opt_str(o: Option<&str>) -> Option<Seq<char>> {
    match o {
        Some(s) => Some(s@),
        None => None,
    }
}

/// Adds the size of a page at the end of `path`.
fn push_page_size(path: &mut String, page_size: Option<u32>)
    ensures
        final(path)@ == old(path)@ + "?pageSize="@ + decimal_of(
            (match page_size {
                Some(n) => n,
                None => DEFAULT_PAGE_SIZE,
            }) as nat,
        ),
{
    path.append("?pageSize=");
    let size = match page_size {
        Some(n) => n,
        None => DEFAULT_PAGE_SIZE,
    };
    push_decimal(path, size as u64);
}

/// Adds where a page starts at the end of `path`, if that is given.
fn push_page_token(path: &mut String, page_token: Option<&str>)
    ensures
        final(path)@ == old(path)@ + (match page_token {
            Some(token) => "&pageToken="@ + token@,
            None => Seq::empty(),
        }),
{
    let ghost before = path@;
    match page_token {
        Some(token) => {
            path.append("&pageToken=");
            path.append(token);
            proof {
                assert(path@ =~= before + ("&pageToken="@ + token@));
            }
        },
        None => {
            proof {
                assert(path@ =~= before + Seq::<char>::empty());
            }
        },
    }
}

/// The path of a page of sessions.
pub fn sessions_endpoint(page_size: Option<u32>, page_token: Option<&str>) -> (path: String)
    ensures
        path@ == "/sessions"@ + page_query(page_size, opt_str(page_token)),
{
    let mut path = "/sessions".to_owned();
    push_page_size(&mut path, page_size);
    push_page_token(&mut path, page_token);
    proof {
        assert(path@ =~= "/sessions"@ + page_query(page_size, opt_str(page_token)));
    }
    path
}

/// The path of the session `session_id`.
pub fn session_endpoint(session_id: &str) -> (path: String)
    ensures
        path@ == "/sessions/"@ + session_id@,
{
    joined("/sessions/", session_id)
}

/// The path under which a message is sent to the session `session_id`.
pub fn send_message_endpoint(session_id: &str) -> (path: String)
    ensures
        path@ == "/sessions/"@ + session_id@ + ":sendMessage"@,
{
    let mut path = joined("/sessions/", session_id);
    path.append(":sendMessage");
    path
}

/// The path under which the plan of the session `session_id` is approved.
pub fn approve_plan_endpoint(session_id: &str) -> (path: String)
    ensures
        path@ == "/sessions/"@ + session_id@ + ":approvePlan"@,
{
    let mut path = joined("/sessions/", session_id);
    path.append(":approvePlan");
    path
}

/// The path of a page of sources, chosen by `filter` where one is given.
pub fn sources_endpoint(filter: Option<&str>, page_size: Option<u32>, page_token: Option<&str>) -> (path:
    String)
    ensures
        path@ == "/sources"@ + "?pageSize="@ + decimal_of(
            (match page_size {
                Some(n) => n,
                None => DEFAULT_PAGE_SIZE,
            }) as nat,
        ) + (match filter {
            Some(f) => "&filter="@ + percent_encoded(f.spec_bytes()),
            None => Seq::empty(),
        }) + (match page_token {
            Some(token) => "&pageToken="@ + token@,
            None => Seq::empty(),
        }),
{
    let mut path = "/sources".to_owned();
    push_page_size(&mut path, page_size);
    let ghost sized = path@;
    match filter {
        Some(f) => {
            path.append("&filter=");
            let encoded = url_encode(f);
            path.append(encoded.as_str());
            proof {
                assert(path@ =~= sized + ("&filter="@ + percent_encoded(f.spec_bytes())));
            }
        },
        None => {
            proof {
                assert(path@ =~= sized + Seq::<char>::empty());
            }
        },
    }
    push_page_token(&mut path, page_token);
    path
}

/// The path of the source `source_id`, which may be given with or without
/// `sources/` in front. Its slashes stay as they are.
pub fn source_endpoint(source_id: &str) -> (path: String)
    ensures
        path@ == "/sources/"@ + without_prefix(source_id@, "sources/"@),
{
    let bare = strip_prefix(source_id, "sources/");
    joined("/sources/", bare.as_str())
}

/// The path of a page of the activities of the session `session_id`.
pub fn activities_endpoint(session_id: &str, page_size: Option<u32>, page_token: Option<&str>) -> (path:
    String)
    ensures
        path@ == "/sessions/"@ + session_id@ + "/activities"@ + page_query(
            page_size,
            opt_str(page_token),
        ),
{
    let mut path = joined("/sessions/", session_id);
    path.append("/activities");
    let ghost head = path@;
    push_page_size(&mut path, page_size);
    push_page_token(&mut path, page_token);
    proof {
        assert(path@ =~= head + page_query(page_size, opt_str(page_token)));
    }
    path
}

/// The path of the activity `activity_id` of the session `session_id`.
pub fn activity_endpoint(session_id: &str, activity_id: &str) -> (path: String)
    ensures
        path@ == "/sessions/"@ + session_id@ + "/activities/"@ + activity_id@,
{
    let mut path = joined("/sessions/", session_id);
    path.append("/activities/");
    path.append(activity_id);
    path
}

/// The address of the path `endpoint` at the service of `config`.
pub fn request_url(config: &JulesConfig, endpoint: &str) -> (url: String)
    ensures
        url@ == config.base_url@ + endpoint@,
{
    joined(config.base_url.as_str(), endpoint)
}

/// What is said of a request that the service turned down: the service's
/// own words where it sent an error that can be read, else the status with
/// what it sent, else the status alone.
pub open spec fn failure_text(status: Seq<char>, body: Seq<char>, error: Option<ApiError>) -> Seq<
    char,
> {
    match error {
        Some(e) => "API error "@ + decimal_of(e.error.code as nat) + ": "@ + e.error.message@ + " ("@
            + e.error.status@ + ")"@,
        None => if body.len() > 0 {
            "API error "@ + status + ": "@ + body
        } else {
            "API error: HTTP "@ + status
        },
    }
}

/// What is said of a request that the service turned down with the status
/// `status` and the response `body`, which reads as `error` where it reads
/// as an error at all.
pub fn failure_message(status: &str, body: &str, error: Option<&ApiError>) -> (message: String)
    ensures
        message@ == failure_text(
            status@,
            body@,
            match error {
                Some(e) => Some(*e),
                None => None,
            },
        ),
{
    match error {
        Some(e) => {
            let mut message = "API error ".to_owned();
            push_decimal(&mut message, e.error.code as u64);
            message.append(": ");
            message.append(e.error.message.as_str());
            message.append(" (");
            message.append(e.error.status.as_str());
            message.append(")");
            message
        },
        None => {
            if !body.is_empty() {
                let mut message = joined("API error ", status);
                message.append(": ");
                message.append(body);
                message
            } else {
                joined("API error: HTTP ", status)
            }
        },
    }
}

} // verus!
