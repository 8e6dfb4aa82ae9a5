use crate::num::{dec_chars, u64_to_string};
use crate::text::{
    char_span_eq, contains_sub, contains_substr, find_first, first_of, has_char, has_char_from,
    is_first_of, lemma_first_of_unique, to_char_vec,
};
use vstd::prelude::*;
use vstd::string::StringSliceAdditionalSpecFns;
use vstd::utf8::encode_utf8;

verus! {

/// What base64's standard-alphabet decoder returns: the decoded bytes, or
/// the text of the decode error.  Both depend on the input alone.
pub uninterp spec fn base64_standard_decode(s: Seq<char>) -> Result<Seq<u8>, Seq<char>>;

/// Relies on base64's `Engine::decode` with the `STANDARD` engine (padded,
/// standard alphabet); the error text is the `Display` of its `DecodeError`.
#[verifier::external_body]
fn decode_base64_standard(s: &str) -> (r: Result<Vec<u8>, String>)
    ensures
        r is Ok <==> base64_standard_decode(s@) is Ok,
        r matches Ok(v) ==> v@ == base64_standard_decode(s@)->Ok_0,
        r matches Err(m) ==> m@ == base64_standard_decode(s@)->Err_0,
{
    match base64::Engine::decode(&base64::engine::general_purpose::STANDARD, s) {
        Ok(v) => Ok(v),
        Err(e) => Err(e.to_string()),
    }
}

/// The media type written in the head of a data URI: the text between the
/// first ':' and the following ':' or the first ';', whichever comes
/// first.
pub open spec fn spec_media_type(head: Seq<char>) -> Option<Seq<char>> {
    let b = if has_char(head, ';') {
        head.take(first_of(head, ';'))
    } else {
        head
    };
    if has_char(b, ':') {
        let rest = b.skip(first_of(b, ':') + 1);
        if has_char(rest, ':') {
            Some(rest.take(first_of(rest, ':')))
        } else {
            Some(rest)
        }
    } else {
        None
    }
}

/// The image media types accepted in a data URI.
pub open spec fn is_allowed_media(m: Seq<char>) -> bool {
    m == "image/avif"@ || m == "image/bmp"@ || m == "image/gif"@ || m == "image/jpeg"@ || m
        == "image/png"@ || m == "image/svg+xml"@ || m == "image/tiff"@ || m == "image/webp"@
}

/// Whether `s` is a well-formed base64 image data URI, or the message that
/// rejects it.
pub open spec fn spec_base64_image_url_check(s: Seq<char>) -> Result<(), Seq<char>> {
    if !has_char(s, ',') || has_char(s.skip(first_of(s, ',') + 1), ',') {
        Err("Invalid base64 data URI."@)
    } else {
        let head = s.take(first_of(s, ','));
        let data = s.skip(first_of(s, ',') + 1);
        if !contains_sub(head, "data:"@) {
            Err("Invalid base64 data URI."@)
        } else if !contains_sub(head, ";base64"@) {
            Err("Data URI is missing base64 extension."@)
        } else {
            match spec_media_type(head) {
                None => Err("Invalid image media type."@),
                Some(m) => if !is_allowed_media(m) {
                    Err("Invalid image media type."@)
                } else {
                    match base64_standard_decode(data) {
                        Err(e) => Err(e),
                        Ok(_) => Ok(()),
                    }
                },
            }
        }
    }
}

/// The base64 payload of a data URI: everything after the comma.
pub open spec fn spec_data_part(s: Seq<char>) -> Seq<char> {
    s.skip(first_of(s, ',') + 1)
}

/// The decoded size estimated for the payload: three quarters of its
/// UTF-8 byte length.
pub open spec fn spec_total_bytes(s: Seq<char>) -> int {
    (encode_utf8(spec_data_part(s)).len() as int) * 3 / 4
}

/// The message rejecting a payload of `total` bytes against a limit of
/// `size` bytes.
pub open spec fn spec_size_error(total: int, size: int) -> Seq<char> {
    "File size: "@ + dec_chars((total / 1024) as nat) + "kb exceeds size limit: "@ + dec_chars(
        (size / 1024) as nat,
    ) + "kb."@
}

/// An inline image, carried as a `data:` URI with a base64 payload.
#[derive(Debug)]
pub struct Base64ImageUrl(String);

impl View for Base64ImageUrl {
    type V = Seq<char>;

    closed spec fn view(&self) -> Seq<char> {
        self.0@
    }
}

impl Base64ImageUrl {
    /// A held value always passed the full data-URI check.
    pub open spec fn wf(&self) -> bool {
        spec_base64_image_url_check(self@) is Ok
    }

    pub fn parse(s: String) -> (r: Result<Base64ImageUrl, String>)
        ensures
            r is Ok <==> spec_base64_image_url_check(s@) is Ok,
            r matches Ok(u) ==> u@ == s@ && u.wf(),
            r matches Err(e) ==> e@ == spec_base64_image_url_check(s@)->Err_0,
    {
        let v = to_char_vec(s.as_str());
        let comma = match find_first(&v, ',') {
            None => {
                return Err(String::from_str("Invalid base64 data URI."));
            },
            Some(i) => i,
        };
        if has_char_from(&v, comma + 1, ',') {
            proof {
                assert(s@.skip(comma + 1) =~= s@.skip(first_of(s@, ',') + 1));
            }
            return Err(String::from_str("Invalid base64 data URI."));
        }
        proof {
            assert(s@.skip(comma + 1) =~= s@.skip(first_of(s@, ',') + 1));
        }
        let head_str = s.as_str().substring_char(0, comma);
        proof {
            assert(head_str@ =~= s@.take(first_of(s@, ',')));
        }
        let head = to_char_vec(head_str);
        if !contains_substr(&head, "data:") {
            return Err(String::from_str("Invalid base64 data URI."));
        }
        if !contains_substr(&head, ";base64") {
            return Err(String::from_str("Data URI is missing base64 extension."));
        }
        let ghost hv = head@;
        let b_end: usize = match find_first(&head, ';') {
            None => head.len(),
            Some(j) => j,
        };
        let ghost b = if has_char(hv, ';') {
            hv.take(first_of(hv, ';'))
        } else {
            hv
        };
        proof {
            assert(b =~= hv.take(b_end as int));
        }
        let first_colon = find_first(&head, ':');
        let p: usize = match first_colon {
            None => {
                proof {
                    if has_char(b, ':') {
                        let w = choose|w: int| 0 <= w < b.len() && b[w] == ':';
                        assert(hv[w] == ':');
                        assert(has_char(hv, ':'));
                    }
                    assert(spec_media_type(hv) is None);
                }
                return Err(String::from_str("Invalid image media type."));
            },
            Some(p0) => {
                if p0 >= b_end {
                    proof {
                        if has_char(b, ':') {
                            let w = choose|w: int| 0 <= w < b.len() && b[w] == ':';
                            assert(hv[w] == ':');
                            assert(is_first_of(hv, ':', p0 as int));
                            assert(hv[w] != ':');
                        }
                        assert(spec_media_type(hv) is None);
                    }
                    return Err(String::from_str("Invalid image media type."));
                }
                p0
            },
        };
        proof {
            assert(b[p as int] == ':');
            assert(is_first_of(b, ':', p as int));
            lemma_first_of_unique(b, ':', p as int, first_of(b, ':'));
        }
        let ghost rest = b.skip(p + 1);
        proof {
            assert(rest =~= hv.subrange(p + 1, b_end as int));
        }
        let q_opt = find_first_in_span(&head, p + 1, b_end, ':');
        let m_end: usize = match q_opt {
            None => b_end,
            Some(q) => q,
        };
        let ghost media = if has_char(rest, ':') {
            rest.take(first_of(rest, ':'))
        } else {
            rest
        };
        proof {
            match q_opt {
                None => {
                    if has_char(rest, ':') {
                        let w = choose|w: int| 0 <= w < rest.len() && rest[w] == ':';
                        assert(hv[p + 1 + w] == ':');
                    }
                    assert(media =~= hv.subrange(p + 1, m_end as int));
                },
                Some(q) => {
                    assert(rest[q - (p + 1)] == ':');
                    assert(is_first_of(rest, ':', q - (p + 1)));
                    lemma_first_of_unique(rest, ':', q - (p + 1), first_of(rest, ':'));
                    assert(media =~= hv.subrange(p + 1, m_end as int));
                },
            }
        }
        let allowed = char_span_eq_media(&head, p + 1, m_end);
        if !allowed {
            return Err(String::from_str("Invalid image media type."));
        }
        let data_str = s.as_str().substring_char(comma + 1, v.len());
        proof {
            assert(data_str@ =~= spec_data_part(s@));
        }
        match decode_base64_standard(data_str) {
            Err(e) => Err(e),
            Ok(_) => Ok(Base64ImageUrl(s)),
        }
    }

    pub fn as_str(&self) -> (r: &str)
        ensures
            r@ == self@,
    {
        self.0.as_str()
    }

    pub fn into_string(self) -> (r: String)
        ensures
            r@ == self@,
    {
        self.0
    }

    /// Checks the payload against a size limit before an upload: three
    /// quarters of the base64 text length must fit.
    pub fn validate_size_limit(self, size: usize) -> (r: Result<Base64ImageUrl, String>)
        requires
            self.wf(),
        ensures
            r is Ok <==> spec_total_bytes(self@) <= size,
            r matches Ok(u) ==> u@ == self@ && u.wf(),
            r matches Err(e) ==> e@ == spec_size_error(spec_total_bytes(self@), size as int),
    {
        let v = to_char_vec(self.0.as_str());
        let comma_opt = find_first(&v, ',');
        proof {
            assert(comma_opt is Some);
        }
        let i = comma_opt.unwrap();
        let n = v.len();
        let data_str = self.0.as_str().substring_char(i + 1, n);
        proof {
            assert(data_str@ =~= spec_data_part(self@));
        }
        let data_bytes = data_str.as_bytes();
        let len = data_bytes.len();
        let total128: u128 = (len as u128) * 3 / 4;
        proof {
            assert(total128 <= len) by (nonlinear_arith)
                requires
                    total128 == (len as int) * 3 / 4,
                    len >= 0,
            ;
        }
        let total: usize = total128 as usize;
        proof {
            assert(data_str@ == spec_data_part(self@));
            assert(data_str.spec_bytes() == encode_utf8(data_str@));
            assert(len == data_bytes@.len());
            assert(len == data_str.spec_bytes().len());
            assert(encode_utf8(data_str@) == encode_utf8(spec_data_part(self@)));
            assert(len as int == encode_utf8(spec_data_part(self@)).len() as int);
            assert(total128 == (len as int) * 3 / 4);
            assert(total == total128 as int);
            assert(total == spec_total_bytes(self@));
        }
        if total > size {
            let mut m = String::from_str("File size: ");
            m.append(u64_to_string((total / 1024) as u64).as_str());
            m.append("kb exceeds size limit: ");
            m.append(u64_to_string((size / 1024) as u64).as_str());
            m.append("kb.");
            Err(m)
        } else {
            Ok(self)
        }
    }
}

/// The first `c` in `v` within `[from, to)`, if any.
fn find_first_in_span(v: &Vec<char>, from: usize, to: usize, c: char) -> (r: Option<usize>)
    requires
        from <= to <= v@.len(),
    ensures
        r is None ==> forall|j: int| from <= j < to ==> v@[j] != c,
        r matches Some(i) ==> from <= i < to && v@[i as int] == c && forall|j: int|
            from <= j < i ==> v@[j] != c,
{
    let mut k: usize = from;
    while k < to
        invariant
            from <= k <= to <= v@.len(),
            v.len() == v@.len(),
            forall|j: int| from <= j < k ==> v@[j] != c,
        decreases to - k,
    {
        if v[k] == c {
            return Some(k);
        }
        k += 1;
    }
    None
}

/// Whether the span `[from, to)` of `v` is one of the accepted media types.
fn char_span_eq_media(v: &Vec<char>, from: usize, to: usize) -> (r: bool)
    requires
        from <= to <= v@.len(),
    ensures
        r == is_allowed_media(v@.subrange(from as int, to as int)),
{
    char_span_eq(v, from, to, "image/avif") || char_span_eq(v, from, to, "image/bmp")
        || char_span_eq(v, from, to, "image/gif") || char_span_eq(v, from, to, "image/jpeg")
        || char_span_eq(v, from, to, "image/png") || char_span_eq(v, from, to, "image/svg+xml")
        || char_span_eq(v, from, to, "image/tiff") || char_span_eq(v, from, to, "image/webp")
}

} // verus!
