use vstd::prelude::*;

use crate::pagination::entries_view;
use crate::registry::{ApplicationData, Contract, Entries};
use crate::text::{decimal, decimal_text, digit_char, digit_str};
use vstd::utf8::encode_utf8;

verus! {

/// A response to a page request: a typed body, a redirect to a body held
/// elsewhere, a list of URLs to fetch first, or a bare status.
pub struct Web4Response {
    pub content_type: Option<String>,
    pub status: Option<u32>,
    pub body: Option<Vec<u8>>,
    pub body_url: Option<String>,
    pub preload_urls: Option<Vec<String>>,
}

impl Web4Response {
    /// An HTML page holding `text`.
    pub fn html_response(text: String) -> (r: Self)
        ensures
            r.content_type matches Some(c) && c@ == "text/html; charset=UTF-8"@,
            r.body matches Some(b) && b@ == encode_utf8(text@),
            r.status is None,
            r.body_url is None,
            r.preload_urls is None,
    {
        Web4Response {
            content_type: Some(String::from_str("text/html; charset=UTF-8")),
            status: None,
            body: Some(text.as_str().as_bytes_vec()),
            body_url: None,
            preload_urls: None,
        }
    }

    /// A plain-text document holding `text`.
    pub fn plain_response(text: String) -> (r: Self)
        ensures
            r.content_type matches Some(c) && c@ == "text/plain; charset=UTF-8"@,
            r.body matches Some(b) && b@ == encode_utf8(text@),
            r.status is None,
            r.body_url is None,
            r.preload_urls is None,
    {
        Web4Response {
            content_type: Some(String::from_str("text/plain; charset=UTF-8")),
            status: None,
            body: Some(text.as_str().as_bytes_vec()),
            body_url: None,
            preload_urls: None,
        }
    }

    /// A response that asks for `urls` to be fetched first.
    pub fn preload_urls(urls: Vec<String>) -> (r: Self)
        ensures
            r.preload_urls == Some(urls),
            r.content_type is None,
            r.status is None,
            r.body is None,
            r.body_url is None,
    {
        Web4Response {
            content_type: None,
            status: None,
            body: None,
            body_url: None,
            preload_urls: Some(urls),
        }
    }

    /// A response whose body is to be read from `url`.
    pub fn body_url(url: String) -> (r: Self)
        ensures
            r.body_url == Some(url),
            r.content_type is None,
            r.status is None,
            r.body is None,
            r.preload_urls is None,
    {
        Web4Response {
            content_type: None,
            status: None,
            body: None,
            body_url: Some(url),
            preload_urls: None,
        }
    }

    /// A response with only a status code.
    pub fn status(status: u32) -> (r: Self)
        ensures
            r.status == Some(status),
            r.content_type is None,
            r.body is None,
            r.body_url is None,
            r.preload_urls is None,
    {
        Web4Response {
            content_type: None,
            status: Some(status),
            body: None,
            body_url: None,
            preload_urls: None,
        }
    }
}

/// The page that a request path selects.
#[derive(Debug, Clone, Copy, PartialEq, Eq, Structural)]
pub enum Web4Page {
    Robots,
    Register,
    Index,
}

pub open spec fn page_of(path: Seq<char>) -> Web4Page {
    if path == "/robots.txt"@ {
        Web4Page::Robots
    } else if path == "/register"@ {
        Web4Page::Register
    } else {
        Web4Page::Index
    }
}

/// The page for `path`: the robots file, the registration form, or else the
/// list of applications.
pub fn route(path: &String) -> (r: Web4Page)
    ensures
        r == page_of(path@),
{
    let robots = String::from_str("/robots.txt");
    let register = String::from_str("/register");
    if *path == robots {
        Web4Page::Robots
    } else if *path == register {
        Web4Page::Register
    } else {
        Web4Page::Index
    }
}

/// The entries that are listed publicly (marked as not hidden), in order.
pub open spec fn shown(apps: Entries) -> Entries
    decreases apps.len(),
{
    if apps.len() == 0 {
        apps
    } else if apps.last().1.hidden == Some(false) {
        shown(apps.drop_last()).push(apps.last())
    } else {
        shown(apps.drop_last())
    }
}

impl Contract {
    /// Copies of the entries that are listed publicly, in insertion order.
    pub fn visible_applications(&self) -> (r: Vec<(String, ApplicationData)>)
        ensures
            entries_view(r@) == shown(self@.applications),
    {
        let all = self.get_applications(None, None);
        let ghost ev = entries_view(all@);
        assert(ev =~= self@.applications);
        let mut r: Vec<(String, ApplicationData)> = Vec::new();
        let mut i: usize = 0;
        while i < all.len()
            invariant
                i <= all@.len(),
                ev == entries_view(all@),
                entries_view(r@) == shown(ev.subrange(0, i as int)),
            decreases all@.len() - i,
        {
            let ghost before = r@;
            assert(ev.subrange(0, i + 1).drop_last() =~= ev.subrange(0, i as int));
            assert(ev[i as int] == (all@[i as int].0@, all@[i as int].1));
            if all[i].1.hidden == Some(false) {
                let key = all[i].0.clone();
                let value = all[i].1.copy();
                r.push((key, value));
                assert(entries_view(r@) =~= entries_view(before).push(ev[i as int]));
            }
            i = i + 1;
        }
        assert(ev.subrange(0, all@.len() as int) =~= ev);
        r
    }
}

/// yoctoNEAR per thousandth of a NEAR.
pub const YOCTO_PER_MILLI: u128 = 1_000_000_000_000_000_000_000;

/// The digits after the point of `f` thousandths, trailing zeros dropped, with
/// the point; nothing when `f` is zero.
pub open spec fn fraction_text(f: nat) -> Seq<char> {
    if f == 0 {
        seq![]
    } else if f % 100 == 0 {
        seq!['.', digit_char(f / 100)]
    } else if f % 10 == 0 {
        seq!['.', digit_char(f / 100), digit_char((f / 10) % 10)]
    } else {
        seq!['.', digit_char(f / 100), digit_char((f / 10) % 10), digit_char(f % 10)]
    }
}

/// An amount of yoctoNEAR in NEAR, cut to whole thousandths.
pub open spec fn near_text(value: u128) -> Seq<char> {
    let milli = value as nat / YOCTO_PER_MILLI as nat;
    decimal_text(milli / 1000) + fraction_text(milli % 1000)
}

/// Writes an amount of yoctoNEAR as NEAR, to the thousandth, rounding down:
/// "1.5" for 1.5 NEAR, "0" below a thousandth.
pub fn format_ynear(value: u128) -> (r: String)
    ensures
        r@ == near_text(value),
{
    let milli = value / YOCTO_PER_MILLI;
    let f = milli % 1000;
    let mut s = decimal(milli / 1000);
    let ghost whole = s@;
    proof {
        reveal_strlit(".");
    }
    if f != 0 {
        s.append(".");
        s.append(digit_str(f / 100));
        if f % 100 != 0 {
            s.append(digit_str((f / 10) % 10));
            if f % 10 != 0 {
                s.append(digit_str(f % 10));
            }
        }
    }
    assert(s@ =~= whole + fraction_text(f as nat));
    s
}

/// The script that fills in the deadline on the page.
pub open spec fn timestamp_text(value: Option<u64>) -> Seq<char> {
    "document.getElementById(\"deadline\").innerText="@ + match value {
        Some(v) => "(new Date("@ + decimal_text(v as nat) + ").toLocaleTimeString(\"en-US\"))"@,
        None => "\"Not set\""@,
    } + ";"@
}

/// Writes the script line that shows `value` (milliseconds since the epoch)
/// as a local time, or "Not set".
pub fn format_timestamp(value: Option<u64>) -> (r: String)
    ensures
        r@ == timestamp_text(value),
{
    let mut s = String::from_str("document.getElementById(\"deadline\").innerText=");
    match value {
        Some(v) => {
            s.append("(new Date(");
            let digits = decimal(v as u128);
            s.append(digits.as_str());
            s.append(").toLocaleTimeString(\"en-US\"))");
        },
        None => {
            s.append("\"Not set\"");
        },
    }
    s.append(";");
    assert(s@ =~= timestamp_text(value));
    s
}

} // verus!
