//! Over-the-air installation: the manifest document, the URLs it points
//! at, and the fallback icon.
use vstd::prelude::*;
use vstd::utf8::encode_utf8;
use crate::task::Software;
use crate::text::{push_str, string_of, chars_of};

verus! {

/// Number of bytes of the fallback icon.
pub const ICON_LEN: usize = 70;

/// The fallback icon: a 1x1 white PNG.
pub open spec fn icon_bytes() -> Seq<u8> {
    seq![137u8, 80, 78, 71, 13, 10, 26, 10, 0, 0, 0, 13, 73, 72, 68, 82, 0, 0, 0, 1, 0, 0, 0, 1, 8, 0, 0, 0, 0, 58, 126, 155, 85, 0, 0, 0, 13, 73, 68, 65, 84, 120, 1, 1, 2, 0, 253, 255, 0, 255, 1, 1, 1, 0, 96, 135, 18, 181, 0, 0, 0, 0, 73, 69, 78, 68, 174, 66, 96, 130]
}

/// A 1x1 white PNG served for both icon sizes.
pub fn white_png() -> (r: Vec<u8>)
    ensures
        r@ == icon_bytes(),
        r@.len() == ICON_LEN,
{
    let r = vec![137u8, 80, 78, 71, 13, 10, 26, 10, 0, 0, 0, 13, 73, 72, 68, 82, 0, 0, 0, 1, 0, 0, 0, 1, 8, 0, 0, 0, 0, 58, 126, 155, 85, 0, 0, 0, 13, 73, 68, 65, 84, 120, 1, 1, 2, 0, 253, 255, 0, 255, 1, 1, 1, 0, 96, 135, 18, 181, 0, 0, 0, 0, 73, 69, 78, 68, 174, 66, 96, 130];
    assert(r@ =~= icon_bytes());
    r
}

/// A character escaped for XML text.
pub open spec fn xml_char(c: char) -> Seq<char> {
    if c == '&' {
        "&amp;"@
    } else if c == '<' {
        "&lt;"@
    } else if c == '>' {
        "&gt;"@
    } else if c == '"' {
        "&quot;"@
    } else if c == '\'' {
        "&apos;"@
    } else {
        seq![c]
    }
}

/// Text escaped for XML.
pub open spec fn xml_escape(s: Seq<char>) -> Seq<char>
    decreases s.len(),
{
    if s.len() == 0 {
        s
    } else {
        xml_escape(s.drop_last()) + xml_char(s.last())
    }
}

fn push_escaped(out: &mut Vec<char>, s: &str)
    ensures
        final(out)@ == old(out)@ + xml_escape(s@),
{
    let cs = chars_of(s);
    let mut i: usize = 0;
    while i < cs.len()
        invariant
            cs@ == s@,
            i <= cs@.len(),
            out@ == old(out)@ + xml_escape(cs@.take(i as int)),
        decreases cs.len() - i,
    {
        let c = cs[i];
        assert(cs@.take(i + 1).drop_last() =~= cs@.take(i as int));
        let ghost before = out@;
        if c == '&' {
            push_str(out, "&amp;");
        } else if c == '<' {
            push_str(out, "&lt;");
        } else if c == '>' {
            push_str(out, "&gt;");
        } else if c == '"' {
            push_str(out, "&quot;");
        } else if c == '\'' {
            push_str(out, "&apos;");
        } else {
            out.push(c);
            assert(out@ =~= before + seq![c]);
        }
        assert(out@ =~= old(out)@ + xml_escape(cs@.take(i + 1)));
        i = i + 1;
    }
    assert(cs@.take(cs@.len() as int) =~= cs@);
}

pub open spec fn asset(kind: Seq<char>, url: Seq<char>) -> Seq<char> {
    "        <dict>\n          <key>kind</key>\n          <string>"@ + kind
        + "</string>\n          <key>url</key>\n          <string>"@ + xml_escape(url)
        + "</string>\n        </dict>\n"@
}

/// The install manifest: one item with the package, a small and a large
/// image, and the bundle id, version and title of the software.
pub open spec fn manifest_xml(sw: Software, payload_url: Seq<char>, small_icon_url: Seq<char>, large_icon_url: Seq<char>) -> Seq<char> {
    "<?xml version=\"1.0\" encoding=\"UTF-8\"?>\n<!DOCTYPE plist PUBLIC \"-//Apple//DTD PLIST 1.0//EN\" \"http://www.apple.com/DTDs/PropertyList-1.0.dtd\">\n<plist version=\"1.0\">\n<dict>\n  <key>items</key>\n  <array>\n    <dict>\n      <key>assets</key>\n      <array>\n"@
        + asset("software-package"@, payload_url)
        + asset("display-image"@, small_icon_url)
        + asset("full-size-image"@, large_icon_url)
        + "      </array>\n      <key>metadata</key>\n      <dict>\n        <key>bundle-identifier</key>\n        <string>"@
        + xml_escape(sw.bundle_id@)
        + "</string>\n        <key>bundle-version</key>\n        <string>"@
        + xml_escape(sw.version@)
        + "</string>\n        <key>kind</key>\n        <string>software</string>\n        <key>title</key>\n        <string>"@
        + xml_escape(sw.name@)
        + "</string>\n      </dict>\n    </dict>\n  </array>\n</dict>\n</plist>\n"@
}

fn push_asset(out: &mut Vec<char>, kind: &str, url: &str)
    ensures
        final(out)@ == old(out)@ + asset(kind@, url@),
{
    push_str(out, "        <dict>\n          <key>kind</key>\n          <string>");
    push_str(out, kind);
    push_str(out, "</string>\n          <key>url</key>\n          <string>");
    push_escaped(out, url);
    push_str(out, "</string>\n        </dict>\n");
    assert(out@ =~= old(out)@ + asset(kind@, url@));
}

/// Builds the install manifest for `sw` with the given asset URLs.
pub fn build_manifest(sw: &Software, payload_url: &str, small_icon_url: &str, large_icon_url: &str) -> (r: String)
    ensures
        r@ == manifest_xml(*sw, payload_url@, small_icon_url@, large_icon_url@),
{
    let mut out: Vec<char> = Vec::new();
    push_str(&mut out, "<?xml version=\"1.0\" encoding=\"UTF-8\"?>\n<!DOCTYPE plist PUBLIC \"-//Apple//DTD PLIST 1.0//EN\" \"http://www.apple.com/DTDs/PropertyList-1.0.dtd\">\n<plist version=\"1.0\">\n<dict>\n  <key>items</key>\n  <array>\n    <dict>\n      <key>assets</key>\n      <array>\n");
    push_asset(&mut out, "software-package", payload_url);
    push_asset(&mut out, "display-image", small_icon_url);
    push_asset(&mut out, "full-size-image", large_icon_url);
    push_str(&mut out, "      </array>\n      <key>metadata</key>\n      <dict>\n        <key>bundle-identifier</key>\n        <string>");
    push_escaped(&mut out, sw.bundle_id.as_str());
    push_str(&mut out, "</string>\n        <key>bundle-version</key>\n        <string>");
    push_escaped(&mut out, sw.version.as_str());
    push_str(&mut out, "</string>\n        <key>kind</key>\n        <string>software</string>\n        <key>title</key>\n        <string>");
    push_escaped(&mut out, sw.name.as_str());
    push_str(&mut out, "</string>\n      </dict>\n    </dict>\n  </array>\n</dict>\n</plist>\n");
    assert(out@ =~= manifest_xml(*sw, payload_url@, small_icon_url@, large_icon_url@));
    string_of(&out)
}

/// The URL of one of a task's install resources: `<base>/api/install/<id>/<file>`.
pub open spec fn install_resource(base: Seq<char>, id: Seq<char>, file: Seq<char>) -> Seq<char> {
    base + "/api/install/"@ + id + "/"@ + file
}

/// `<base>/api/install/<id>/<file>`.
pub fn install_resource_url(base: &str, id: &str, file: &str) -> (r: String)
    ensures
        r@ == install_resource(base@, id@, file@),
{
    let mut s = String::from_str(base);
    s.append("/api/install/");
    s.append(id);
    s.append("/");
    s.append(file);
    s
}

pub open spec fn is_space(c: char) -> bool {
    c == ' ' || c == '\t' || c == '\n' || c == '\r'
}

/// Characters kept from a `Host` header: `[A-Za-z0-9.:-]`.
pub open spec fn is_host_char(c: char) -> bool {
    crate::security::is_ascii_alnum(c) || c == '.' || c == ':' || c == '-'
}

/// The characters of `s` that may stand in a host, in order.
pub open spec fn host_chars(s: Seq<char>) -> Seq<char>
    decreases s.len(),
{
    if s.len() == 0 {
        s
    } else if is_host_char(s.last()) {
        host_chars(s.drop_last()).push(s.last())
    } else {
        host_chars(s.drop_last())
    }
}

/// A configured base URL without surrounding white space and trailing
/// slashes: the bounds `lo..hi` it keeps.
pub open spec fn trimmed_bounds(s: Seq<char>, lo: int, hi: int) -> bool {
    &&& 0 <= lo <= hi <= s.len()
    &&& forall|i: int| 0 <= i < lo ==> is_space(#[trigger] s[i])
    &&& forall|i: int| hi <= i < s.len() ==> is_space(#[trigger] s[i]) || s[i] == '/'
    &&& lo < hi ==> !is_space(s[lo])
    &&& lo < hi ==> !is_space(s[hi - 1]) && s[hi - 1] != '/'
}

/// The base of install URLs: the configured value, trimmed, when one is
/// set; else `https://<host>` when the request was forwarded as `https`,
/// `http://<host>` otherwise, keeping only host characters of the `Host`
/// header (`localhost` when there is none).
pub open spec fn base_url_of(configured: Seq<char>, forwarded_proto: Option<Seq<char>>, host: Option<Seq<char>>, r: Seq<char>) -> bool {
    (exists|lo: int, hi: int| trimmed_bounds(configured, lo, hi) && lo < hi && r == configured.subrange(lo, hi))
    || ((forall|lo: int, hi: int| trimmed_bounds(configured, lo, hi) ==> lo == hi)
        && r == (if forwarded_proto == Some("https"@) { "https"@ } else { "http"@ }) + "://"@
            + host_chars(match host { Some(h) => h, None => "localhost"@ }))
}

/// Chooses the base of install URLs.
pub fn get_base_url(configured: &str, forwarded_proto: Option<&str>, host: Option<&str>) -> (r: String)
    ensures
        base_url_of(configured@, match forwarded_proto { Some(p) => Some(p@), None => None },
            match host { Some(h) => Some(h@), None => None }, r@),
{
    let cs = chars_of(configured);
    let mut lo: usize = 0;
    while lo < cs.len() && (cs[lo] == ' ' || cs[lo] == '\t' || cs[lo] == '\n' || cs[lo] == '\r')
        invariant
            lo <= cs@.len(),
            forall|i: int| 0 <= i < lo ==> is_space(#[trigger] cs@[i]),
        decreases cs.len() - lo,
    {
        lo = lo + 1;
    }
    let mut hi: usize = cs.len();
    while hi > lo && (cs[hi - 1] == ' ' || cs[hi - 1] == '\t' || cs[hi - 1] == '\n' || cs[hi - 1] == '\r' || cs[hi - 1] == '/')
        invariant
            lo <= hi <= cs@.len(),
            forall|i: int| hi <= i < cs@.len() ==> is_space(#[trigger] cs@[i]) || cs@[i] == '/',
        decreases hi,
    {
        hi = hi - 1;
    }
    assert(trimmed_bounds(cs@, lo as int, hi as int));
    if lo < hi {
        let kept = crate::security::slice(&cs, lo, hi);
        return string_of(&kept);
    }
    proof {
        assert forall|a: int, b: int| trimmed_bounds(cs@, a, b) implies a == b by {
            if a < b {
                // every character of the value is a space or a slash
                if a < lo as int {
                    assert(is_space(cs@[a]));
                } else {
                    assert(is_space(cs@[a]) || cs@[a] == '/');
                    assert(is_space(cs@[b - 1]) || cs@[b - 1] == '/');
                }
            }
        }
    }
    let mut out: Vec<char> = Vec::new();
    let https = match forwarded_proto {
        Some(p) => String::from_str(p) == String::from_str("https"),
        None => false,
    };
    if https {
        push_str(&mut out, "https");
    } else {
        push_str(&mut out, "http");
    }
    push_str(&mut out, "://");
    let h = match host {
        Some(h) => chars_of(h),
        None => chars_of("localhost"),
    };
    let mut i: usize = 0;
    let ghost start = out@;
    while i < h.len()
        invariant
            i <= h@.len(),
            out@ == start + host_chars(h@.take(i as int)),
        decreases h.len() - i,
    {
        let c = h[i];
        assert(h@.take(i + 1).drop_last() =~= h@.take(i as int));
        if ('a' <= c && c <= 'z') || ('A' <= c && c <= 'Z') || ('0' <= c && c <= '9') || c == '.' || c == ':' || c == '-' {
            out.push(c);
        }
        i = i + 1;
    }
    assert(h@.take(h@.len() as int) =~= h@);
    string_of(&out)
}

/// Whether a byte is left as it is by percent-encoding: ASCII letters,
/// digits and `-`, `.`, `_`, `~`.
pub open spec fn is_unreserved(b: u8) -> bool {
    (48 <= b && b <= 57) || (65 <= b && b <= 90) || (97 <= b && b <= 122) || b == 45 || b == 46 || b == 95 || b == 126
}

/// An upper-case hex digit.
pub open spec fn hex_upper(d: u8) -> char {
    if d < 10 { (48 + d) as char } else { (55 + d) as char }
}

/// Percent-encoding of bytes: unreserved bytes stay, every other byte
/// becomes `%` and two upper-case hex digits.
pub open spec fn percent_encoded(bytes: Seq<u8>) -> Seq<char>
    decreases bytes.len(),
{
    if bytes.len() == 0 {
        Seq::empty()
    } else {
        let b = bytes.last();
        percent_encoded(bytes.drop_last()) + (if is_unreserved(b) {
            seq![b as char]
        } else {
            seq!['%', hex_upper(b / 16), hex_upper(b % 16)]
        })
    }
}

/// Relies on `urlencoding::encode`, which percent-encodes the UTF-8 bytes
/// of its input except alphanumerics and `-`, `_`, `.`, `~`.
#[verifier::external_body]
fn url_encode(s: &str) -> (r: String)
    ensures
        r@ == percent_encoded(encode_utf8(s@)),
{
    urlencoding::encode(s).into_owned()
}

/// The `itms-services` link that installs from a manifest URL.
pub open spec fn install_link(manifest_url: Seq<char>) -> Seq<char> {
    "itms-services://?action=download-manifest&url="@ + percent_encoded(encode_utf8(manifest_url))
}

/// The manifest URL of a task and the link that installs it.
pub fn install_urls(base_url: &str, id: &str) -> (r: (String, String))
    ensures
        r.1@ == install_resource(base_url@, id@, "manifest.plist"@),
        r.0@ == install_link(r.1@),
{
    let manifest_url = install_resource_url(base_url, id, "manifest.plist");
    let mut link = String::from_str("itms-services://?action=download-manifest&url=");
    let enc = url_encode(manifest_url.as_str());
    link.append(enc.as_str());
    (link, manifest_url)
}

} // verus!
