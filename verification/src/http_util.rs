//! Decisions of the serving layer that need no connection: content types,
//! content negotiation, and the form in which an image goes to the browser.
use crate::text::chars_of;
use crate::text::find_char;
use crate::text::first_index;
use vstd::prelude::*;

verus! {

/// The text that `base64::encode` gives for `data`: base64 with the standard
/// alphabet and padding.
pub uninterp spec fn base64_text(data: Seq<u8>) -> Seq<char>;

/// Encodes bytes with `base64::encode`. Trusted: the text returned is the
/// base64 encoding of exactly the bytes given.
#[verifier::external_body]
fn base64_encode(data: &[u8]) -> (text: String)
    ensures
        text@ == base64_text(data@),
{
    base64::encode(data)
}

/// Whether `s` ends with `suffix`.
pub open spec fn ends_with(s: Seq<char>, suffix: Seq<char>) -> bool {
    suffix.len() <= s.len() && s.skip(s.len() - suffix.len()) == suffix
}

/// Whether `data` starts with `prefix`.
pub open spec fn starts_with(data: Seq<u8>, prefix: Seq<u8>) -> bool {
    prefix.len() <= data.len() && data.take(prefix.len() as int) == prefix
}

/// Whether the characters `s` end with `suffix`.
fn has_suffix(s: &Vec<char>, suffix: &str) -> (yes: bool)
    ensures
        yes == ends_with(s@, suffix@),
{
    let tail = chars_of(suffix);
    if tail.len() > s.len() {
        return false;
    }
    let offset = s.len() - tail.len();
    let mut i: usize = 0;
    while i < tail.len()
        invariant
            i <= tail.len(),
            tail@ == suffix@,
            offset + tail.len() == s.len(),
            forall|j: int| 0 <= j < i ==> s@[offset + j] == tail@[j],
        decreases tail.len() - i,
    {
        if s[offset + i] != tail[i] {
            return false;
        }
        i += 1;
    }
    assert(s@.skip(offset as int) =~= tail@);
    true
}

/// The content type by which a file of this name is served: by its
/// extension, and as arbitrary bytes where the extension is not one of the
/// known ones.
pub open spec fn mime_of(name: Seq<char>) -> Seq<char> {
    if ends_with(name, ".js"@) {
        "application/javascript"@
    } else if ends_with(name, ".html"@) {
        "text/html"@
    } else if ends_with(name, ".css"@) {
        "text/css"@
    } else if ends_with(name, ".ico"@) {
        "image/x-icon"@
    } else if ends_with(name, ".svg"@) {
        "image/svg+xml"@
    } else {
        "application/octet-stream"@
    }
}

/// The content type by which the file `name` is served.
pub fn asset_mime_type(name: &str) -> (mime: &'static str)
    ensures
        mime@ == mime_of(name@),
{
    let chars = chars_of(name);
    if has_suffix(&chars, ".js") {
        "application/javascript"
    } else if has_suffix(&chars, ".html") {
        "text/html"
    } else if has_suffix(&chars, ".css") {
        "text/css"
    } else if has_suffix(&chars, ".ico") {
        "image/x-icon"
    } else if has_suffix(&chars, ".svg") {
        "image/svg+xml"
    } else {
        "application/octet-stream"
    }
}

/// The first bytes of a PNG file.
pub open spec fn png_magic() -> Seq<u8> {
    seq![0x89u8, 0x50u8, 0x4eu8, 0x47u8, 0x0du8, 0x0au8, 0x1au8, 0x0au8]
}

/// The first bytes of a JPEG file.
pub open spec fn jpeg_magic() -> Seq<u8> {
    seq![0xffu8, 0xd8u8, 0xffu8]
}

/// The first bytes of a GIF file.
pub open spec fn gif_magic() -> Seq<u8> {
    seq![0x47u8, 0x49u8, 0x46u8, 0x38u8]
}

/// Whether `data` has the frame of a WebP file: `RIFF`, four bytes of
/// length, `WEBP`.
pub open spec fn is_webp(data: Seq<u8>) -> bool {
    data.len() >= 12 && data.take(4) == seq![0x52u8, 0x49u8, 0x46u8, 0x46u8] && data.subrange(
        8,
        12,
    ) == seq![0x57u8, 0x45u8, 0x42u8, 0x50u8]
}

/// The content type that the first bytes of an image show, if they show one.
pub open spec fn image_mime_of(data: Seq<u8>) -> Option<Seq<char>> {
    if starts_with(data, png_magic()) {
        Some("image/png"@)
    } else if starts_with(data, jpeg_magic()) {
        Some("image/jpeg"@)
    } else if starts_with(data, gif_magic()) {
        Some("image/gif"@)
    } else if is_webp(data) {
        Some("image/webp"@)
    } else {
        None
    }
}

/// The content type that the first bytes of an image show, if they show one
/// of PNG, JPEG, GIF and WebP.
pub fn detect_image_mime(data: &[u8]) -> (mime: Option<&'static str>)
    ensures
        match mime {
            Some(m) => image_mime_of(data@) == Some(m@),
            None => image_mime_of(data@) is None,
        },
{
    let n = data.len();
    if n >= 8 && data[0] == 0x89 && data[1] == 0x50 && data[2] == 0x4e && data[3] == 0x47
        && data[4] == 0x0d && data[5] == 0x0a && data[6] == 0x1a && data[7] == 0x0a {
        assert(data@.take(8) =~= png_magic());
        return Some("image/png");
    }
    if n >= 3 && data[0] == 0xff && data[1] == 0xd8 && data[2] == 0xff {
        assert(data@.take(3) =~= jpeg_magic());
        return Some("image/jpeg");
    }
    if n >= 4 && data[0] == 0x47 && data[1] == 0x49 && data[2] == 0x46 && data[3] == 0x38 {
        assert(data@.take(4) =~= gif_magic());
        return Some("image/gif");
    }
    if n >= 12 && data[0] == 0x52 && data[1] == 0x49 && data[2] == 0x46 && data[3] == 0x46
        && data[8] == 0x57 && data[9] == 0x45 && data[10] == 0x42 && data[11] == 0x50 {
        assert(data@.take(4) =~= seq![0x52u8, 0x49u8, 0x46u8, 0x46u8]);
        assert(data@.subrange(8, 12) =~= seq![0x57u8, 0x45u8, 0x42u8, 0x50u8]);
        return Some("image/webp");
    }
    None
}

/// The `data:` address of an image: its content type, taken as JPEG where
/// the bytes do not show one, and its bytes in base64.
pub open spec fn data_url_of(data: Seq<u8>) -> Seq<char> {
    let mime = match image_mime_of(data) {
        Some(m) => m,
        None => "image/jpeg"@,
    };
    "data:"@ + mime + ";base64,"@ + base64_text(data)
}

/// The `data:` address under which the browser shows the image `data`.
pub fn image_data_url(data: &[u8]) -> (url: String)
    ensures
        url@ == data_url_of(data@),
{
    let mime = match detect_image_mime(data) {
        Some(m) => m,
        None => "image/jpeg",
    };
    let encoded = base64_encode(data);
    let mut url = "data:".to_owned();
    url.append(mime);
    url.append(";base64,");
    url.append(encoded.as_str());
    url
}

/// Whether a comma followed by a blank, which parts the entries of a header,
/// stands at place `i` of `s`.
pub open spec fn parts_at(s: Seq<char>, i: int) -> bool {
    0 <= i && i + 1 < s.len() && s[i] == ',' && s[i + 1] == ' '
}

/// Whether `s[from..to]` is one entry of the header `s`: it starts at the
/// start or behind a separator, ends at the end or before a separator, and
/// holds no separator.
pub open spec fn is_entry(s: Seq<char>, from: int, to: int) -> bool {
    &&& 0 <= from <= to <= s.len()
    &&& from == 0 || parts_at(s, from - 2)
    &&& to == s.len() || parts_at(s, to)
    &&& forall|i: int| from <= i < to ==> !parts_at(s, i)
}

/// Whether an entry names `gzip`: its text up to the first semicolon, behind
/// which its parameters stand, is `gzip`.
pub open spec fn names_gzip(entry: Seq<char>) -> bool {
    entry.take(first_index(entry, ';')) == "gzip"@
}

/// Whether a header that lists the encodings that a client accepts lists
/// `gzip`.
pub open spec fn lists_gzip(header: Seq<char>) -> bool {
    exists|from: int, to: int| #[trigger]
        is_entry(header, from, to) && names_gzip(header.subrange(from, to))
}

/// Whether a client that sent this `Accept-Encoding` header takes a
/// response compressed with gzip. A client that sent no such header is to be
/// asked with the empty text.
pub fn accepts_gzip(accept_encoding: &str) -> (yes: bool)
    ensures
        yes == lists_gzip(accept_encoding@),
{
    let s = chars_of(accept_encoding);
    let n = s.len();
    let mut from: usize = 0;
    proof {
        reveal_strlit("gzip");
    }
    loop
        invariant
            n == s.len(),
            s@ == accept_encoding@,
            from <= n,
            from == 0 || parts_at(s@, from - 2),
            "gzip"@ == seq!['g', 'z', 'i', 'p'],
            forall|a: int, b: int|
                0 <= a < from && #[trigger] is_entry(s@, a, b) ==> !names_gzip(s@.subrange(a, b)),
        decreases n - from,
    {
        let mut to: usize = from;
        while to < n && !(s[to] == ',' && to + 1 < n && s[to + 1] == ' ')
            invariant
                n == s.len(),
                from <= to <= n,
                forall|i: int| from <= i < to ==> !parts_at(s@, i),
            decreases n - to,
        {
            to += 1;
        }
        assert(is_entry(s@, from as int, to as int));
        let entry = vstd::slice::slice_subrange(s.as_slice(), from, to);
        let head = find_char(entry, ';');
        let named = head == 4 && entry[0] == 'g' && entry[1] == 'z' && entry[2] == 'i' && entry[3]
            == 'p';
        proof {
            let name = entry@.take(head as int);
            if named {
                assert(name =~= "gzip"@);
            } else if name == "gzip"@ {
                assert(name.len() == 4);
            }
        }
        if named {
            return true;
        }
        if to >= n {
            return false;
        }
        from = to + 2;
    }
}

} // verus!
