//! The icon of a web site: where it is asked for, which replies count, and the picture made of
//! it.

use vstd::prelude::*;

use crate::raster::Filter;
use crate::text::{concat, trim, trimmed};
use crate::web::{is_web_scheme, join_address, joined_url, parse_address, parsed_url, web_scheme};

verus! {

/// The side of a site's icon in pixels.
pub const ICON_SIDE: u32 = 64;

/// Where a site's icon is asked for: at the site, and else at a service that knows many.
#[derive(Debug)]
pub struct IconRequests {
    pub site: String,
    pub service: String,
}

/// The address at which the service is asked for the icon of a host.
pub open spec fn service_address(host: Seq<char>) -> Seq<char> {
    "https://www.google.com/s2/favicons?sz=64&domain="@ + host
}

/// The addresses at which the icon of a site is asked for: at the site and at the service. None
/// where the text is no address of the web with a host.
pub open spec fn icon_addresses(web_url: Seq<char>) -> Option<(Seq<char>, Seq<char>)> {
    match (parsed_url(trim(web_url)), joined_url(trim(web_url), "/favicon.ico"@)) {
        (Some((scheme, Some(host))), Some(site)) if web_scheme(scheme) => Some(
            (site, service_address(host)),
        ),
        _ => None,
    }
}

/// Where the icon of a site is asked for.
pub fn icon_requests(web_url: &str) -> (r: Option<IconRequests>)
    ensures
        match r {
            Some(q) => icon_addresses(web_url@) == Some((q.site@, q.service@)),
            None => icon_addresses(web_url@) is None,
        },
{
    let text = trimmed(web_url);
    match parse_address(text.as_str()) {
        None => None,
        Some(a) => {
            if !is_web_scheme(a.scheme.as_str()) {
                return None;
            }
            match a.host {
                None => None,
                Some(host) => match join_address(text.as_str(), "/favicon.ico") {
                    None => None,
                    Some(site) => Some(
                        IconRequests {
                            site,
                            service: concat(
                                "https://www.google.com/s2/favicons?sz=64&domain=",
                                host.as_str(),
                            ),
                        },
                    ),
                },
            }
        },
    }
}

/// A reply: its status and what came with it.
#[derive(Debug)]
pub struct Reply {
    pub status: u16,
    pub body: Vec<u8>,
}

/// What a reply brings, if it counts: one that tells of success or of another place, and brings
/// enough to be a picture.
pub open spec fn reply_bytes(reply: Option<Reply>) -> Option<Seq<u8>> {
    match reply {
        Some(reply) if 200 <= reply.status < 400 && reply.body@.len() >= 8 => Some(reply.body@),
        _ => None,
    }
}

/// Whether the reply counts.
pub fn reply_counts(reply: &Reply) -> (r: bool)
    ensures
        r == reply_bytes(Some(*reply)) is Some,
{
    200 <= reply.status && reply.status < 400 && reply.body.len() >= 8
}

/// What the reply brings, if it counts.
pub fn accept_reply(reply: Option<Reply>) -> (r: Option<Vec<u8>>)
    ensures
        match r {
            Some(b) => reply_bytes(reply) == Some(b@),
            None => reply_bytes(reply) is None,
        },
{
    match reply {
        Some(reply) => if reply_counts(&reply) {
            Some(reply.body)
        } else {
            None
        },
        None => None,
    }
}

/// A picture of the given size, as a PNG file, made of a picture file with the triangle filter.
pub uninterp spec fn resized_png(raw: Seq<u8>, width: u32, height: u32) -> Option<Seq<u8>>;

/// What a list of bytes holds, if there is one.
pub open spec fn opt_bytes(o: Option<Vec<u8>>) -> Option<Seq<u8>> {
    match o {
        Some(v) => Some(v@),
        None => None,
    }
}

/// `image::load_from_memory` reads a picture file of a known format, `resize_exact` brings it to
/// the size, and `write_to` makes a PNG file of it. There is none where the bytes are no such
/// file. The file has a name for the triangle filter only: machines may differ in what the other
/// makes.
#[verifier::external_body]
fn resize_to_png(raw: &Vec<u8>, width: u32, height: u32, filter: Filter) -> (r: Option<Vec<u8>>)
    requires
        filter == Filter::Triangle,
        0 < width <= 0x4000,
        0 < height <= 0x4000,
    ensures
        opt_bytes(r) == resized_png(raw@, width, height),
{
    let img = image::load_from_memory(raw).ok()?;
    let kind = match filter {
        Filter::Triangle => image::imageops::FilterType::Triangle,
        Filter::Lanczos => image::imageops::FilterType::Lanczos3,
    };
    let resized = img.resize_exact(width, height, kind);
    let mut cursor = std::io::Cursor::new(Vec::new());
    resized.write_to(&mut cursor, image::ImageFormat::Png).ok()?;
    Some(cursor.into_inner())
}

/// The picture as a PNG file of the size that site icons have.
pub fn normalize_image_bytes_to_png(raw: &Vec<u8>) -> (r: Option<Vec<u8>>)
    ensures
        opt_bytes(r) == resized_png(raw@, ICON_SIDE, ICON_SIDE),
{
    resize_to_png(raw, ICON_SIDE, ICON_SIDE, Filter::Triangle)
}

/// The icon of a site, given the replies of the site and of the service, as a PNG file. The
/// service's reply counts only where the site's does not.
pub fn download_site_icon_png(site: Option<Reply>, service: Option<Reply>) -> (r: Option<Vec<u8>>)
    ensures
        opt_bytes(r) == match (reply_bytes(site), reply_bytes(service)) {
            (Some(raw), _) => resized_png(raw, ICON_SIDE, ICON_SIDE),
            (None, Some(raw)) => resized_png(raw, ICON_SIDE, ICON_SIDE),
            (None, None) => None,
        },
{
    match accept_reply(site) {
        Some(raw) => normalize_image_bytes_to_png(&raw),
        None => match accept_reply(service) {
            Some(raw) => normalize_image_bytes_to_png(&raw),
            None => None,
        },
    }
}

} // verus!
