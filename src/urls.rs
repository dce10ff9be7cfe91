//! Addresses of the remote share's listing and download services.
use vstd::prelude::*;
use crate::text::joined;

verus! {

/// The text that `urlencoding::encode` produces for a given text.
pub uninterp spec fn url_encoded(s: Seq<char>) -> Seq<char>;

/// A character that `urlencoding::encode` leaves as it is.
pub open spec fn is_unreserved(c: char) -> bool {
    ('0' <= c && c <= '9') || ('a' <= c && c <= 'z') || ('A' <= c && c <= 'Z') || c == '-'
        || c == '_' || c == '.' || c == '~'
}

/// The decimal digits of `n`, most significant first.
pub open spec fn decimal(n: nat) -> Seq<char>
    decreases n,
{
    let d = seq![(('0' as u8) + (n % 10) as u8) as char];
    if n < 10 {
        d
    } else {
        decimal(n / 10) + d
    }
}

/// Relies on `urlencoding::encode`: every byte of the UTF-8 form is
/// percent-encoded except ASCII letters, digits and `-`, `_`, `.`, `~`.
#[verifier::external_body]
fn encode(s: &str) -> (r: String)
    ensures
        r@ == url_encoded(s@),
        (forall|i: int| 0 <= i < s@.len() ==> is_unreserved(#[trigger] s@[i])) ==> r@ == s@,
{
    urlencoding::encode(s).into_owned()
}

/// The digit `d` as a one-character text.
fn digit_text(d: u64) -> (r: &'static str)
    requires
        d < 10,
    ensures
        r@ == seq![(('0' as u8) + d as u8) as char],
{
    proof {
        reveal_strlit("0");
        reveal_strlit("1");
        reveal_strlit("2");
        reveal_strlit("3");
        reveal_strlit("4");
        reveal_strlit("5");
        reveal_strlit("6");
        reveal_strlit("7");
        reveal_strlit("8");
        reveal_strlit("9");
    }
    let r = if d == 0 {
        "0"
    } else if d == 1 {
        "1"
    } else if d == 2 {
        "2"
    } else if d == 3 {
        "3"
    } else if d == 4 {
        "4"
    } else if d == 5 {
        "5"
    } else if d == 6 {
        "6"
    } else if d == 7 {
        "7"
    } else if d == 8 {
        "8"
    } else {
        "9"
    };
    assert(r@ =~= seq![(('0' as u8) + d as u8) as char]);
    r
}

/// The decimal digits of `n`, most significant first.
fn decimal_text(n: u64) -> (r: String)
    ensures
        r@ == decimal(n as nat),
    decreases n,
{
    if n < 10 {
        digit_text(n).to_owned()
    } else {
        let mut s = decimal_text(n / 10);
        s.append(digit_text(n % 10));
        s
    }
}

pub open spec fn listing_url_of(root: Seq<char>, path: Seq<char>, limit: u64, offset: u64) -> Seq<
    char,
> {
    "https://cloud-api.yandex.net/v1/disk/public/resources?public_key="@ + url_encoded(root)
        + "&path="@ + url_encoded(path) + "&fields=_embedded.items,name,type&limit="@ + decimal(
        limit as nat,
    ) + "&offset="@ + decimal(offset as nat)
}

pub open spec fn download_url_of(root: Seq<char>, path: Seq<char>) -> Seq<char> {
    "https://cloud-api.yandex.net/v1/disk/public/resources/download?public_key="@ + url_encoded(
        root,
    ) + "&path="@ + url_encoded(path)
}

/// The address that lists one page of `path` in share `root`.
pub fn listing_url(root: &str, path: &str, limit: u64, offset: u64) -> (r: String)
    ensures
        r@ == listing_url_of(root@, path@, limit, offset),
{
    let r = encode(root);
    let p = encode(path);
    let l = decimal_text(limit);
    let o = decimal_text(offset);
    let s = joined("https://cloud-api.yandex.net/v1/disk/public/resources?public_key=", r.as_str());
    let s = joined(s.as_str(), "&path=");
    let s = joined(s.as_str(), p.as_str());
    let s = joined(s.as_str(), "&fields=_embedded.items,name,type&limit=");
    let s = joined(s.as_str(), l.as_str());
    let s = joined(s.as_str(), "&offset=");
    joined(s.as_str(), o.as_str())
}

/// The address that asks share `root` for a direct link to the file at `path`.
pub fn download_url(root: &str, path: &str) -> (r: String)
    ensures
        r@ == download_url_of(root@, path@),
{
    let r = encode(root);
    let p = encode(path);
    let s = joined(
        "https://cloud-api.yandex.net/v1/disk/public/resources/download?public_key=",
        r.as_str(),
    );
    let s = joined(s.as_str(), "&path=");
    joined(s.as_str(), p.as_str())
}

} // verus!
