use crate::text::{
    char_range_eq, find_last, has_char, is_last_of, last_of, lemma_last_of_unique, to_char_vec,
    trim_to_string, trimmed,
};
use vstd::prelude::*;

verus! {

/// Whether the string parses as a URL.  URL grammar takes pages to state, so
/// the judgement is left abstract and contracts speak of it through this name.
pub uninterp spec fn url_valid(s: Seq<char>) -> bool;

/// Relies on validator's `ValidateUrl::validate_url`: whether the string is
/// a well-formed URL; a function of the characters alone.
#[verifier::external_body]
fn validate_url_str(s: &str) -> (r: bool)
    ensures
        r == url_valid(s@),
{
    validator::ValidateUrl::validate_url(&s)
}

/// The final path segment of `s`: everything after the last '/'.
pub open spec fn spec_file_name(s: Seq<char>) -> Seq<char> {
    if has_char(s, '/') {
        s.skip(last_of(s, '/') + 1)
    } else {
        s
    }
}

/// The extension of a file name: the part after the last '.', unless the
/// only '.' leads the name (a hidden file) or there is none.
pub open spec fn spec_extension(name: Seq<char>) -> Option<Seq<char>> {
    if has_char(name, '.') && last_of(name, '.') != 0 {
        Some(name.skip(last_of(name, '.') + 1))
    } else {
        None
    }
}

/// The file extensions accepted for images.
pub open spec fn is_allowed_image_ext(e: Seq<char>) -> bool {
    e == "png"@ || e == "jpg"@ || e == "jpeg"@ || e == "webp"@ || e == "avif"@ || e == "gif"@
}

/// What parsing an image URL returns: the trimmed URL, or the message that
/// rejects it.  An all-whitespace string is accepted and trims to empty.
pub open spec fn spec_image_url_result(s: Seq<char>) -> Result<Seq<char>, Seq<char>> {
    let t = trimmed(s);
    if t.len() == 0 {
        Ok(t)
    } else if !url_valid(t) {
        Err(t + " is not a valid url."@)
    } else {
        match spec_extension(spec_file_name(t)) {
            None => Err("No file extension found."@),
            Some(e) => if is_allowed_image_ext(e) {
                Ok(t)
            } else {
                Err("File extension '\""@ + e + "\"' is not valid."@)
            },
        }
    }
}

/// The message with which a URL's file extension is rejected.
pub open spec fn spec_extension_error(s: Seq<char>) -> Seq<char> {
    match spec_extension(spec_file_name(s)) {
        None => "No file extension found."@,
        Some(e) => "File extension '\""@ + e + "\"' is not valid."@,
    }
}

/// Checks that the URL's path ends in an accepted image file extension,
/// read as std's `Path::extension` reads it.
pub fn has_image_file_extension(url: &String) -> (r: Result<(), String>)
    ensures
        r is Ok <==> (spec_extension(spec_file_name(url@)) matches Some(e)
            && is_allowed_image_ext(e)),
        r matches Err(m) ==> m@ == spec_extension_error(url@),
{
    let v = to_char_vec(url.as_str());
    let n = v.len();
    let ghost tv = url@;
    let name_start: usize = match find_last(&v, '/') {
        Some(i) => i + 1,
        None => 0,
    };
    proof {
        if !has_char(tv, '/') {
            assert(spec_file_name(tv) == tv);
        }
    }
    let ghost name = spec_file_name(tv);
    proof {
        if has_char(tv, '/') {
            assert(name =~= tv.skip(name_start as int));
        } else {
            assert(name =~= tv.skip(0));
        }
    }
    let dot: Option<usize> = find_last(&v, '.');
    let ext_start: Option<usize> = match dot {
        None => None,
        Some(d) => if d > name_start {
            Some(d + 1)
        } else {
            None
        },
    };
    proof {
        let ns = name_start as int;
        match dot {
            None => {
                if has_char(name, '.') {
                    let w = choose|w: int| 0 <= w < name.len() && name[w] == '.';
                    assert(tv[ns + w] == '.');
                    assert(has_char(tv, '.'));
                }
                assert(spec_extension(name) is None);
            },
            Some(d) => {
                let di = d as int;
                if di > ns {
                    assert(name[di - ns] == '.');
                    assert(forall|j: int|
                        di - ns < j < name.len() ==> name[j] == tv[ns + j] && tv[ns + j] != '.');
                    assert(is_last_of(name, '.', di - ns));
                    lemma_last_of_unique(name, '.', di - ns, last_of(name, '.'));
                    assert(spec_extension(name) matches Some(e) && e =~= tv.skip(di + 1));
                } else {
                    if has_char(name, '.') {
                        let w = choose|w: int| 0 <= w < name.len() && name[w] == '.';
                        assert(tv[ns + w] == '.');
                        assert(ns + w <= di);
                        if di == ns {
                            assert(w == 0);
                            lemma_last_of_unique(name, '.', 0, last_of(name, '.'));
                        }
                    }
                    assert(spec_extension(name) is None);
                }
            },
        }
    }
    match ext_start {
        None => Err(String::from_str("No file extension found.")),
        Some(e) => {
            let allowed = char_range_eq(&v, e, "png") || char_range_eq(&v, e, "jpg")
                || char_range_eq(&v, e, "jpeg") || char_range_eq(&v, e, "webp") || char_range_eq(
                &v,
                e,
                "avif",
            ) || char_range_eq(&v, e, "gif");
            if allowed {
                Ok(())
            } else {
                let ext_str = url.as_str().substring_char(e, n);
                proof {
                    assert(ext_str@ =~= tv.skip(e as int));
                }
                let mut m = String::from_str("File extension '\"");
                m.append(ext_str);
                m.append("\"' is not valid.");
                Err(m)
            }
        },
    }
}

/// A URL pointing at an image file, or the empty string for "no image".
#[derive(Debug)]
pub struct ImageUrl(String);

impl View for ImageUrl {
    type V = Seq<char>;

    closed spec fn view(&self) -> Seq<char> {
        self.0@
    }
}

impl ImageUrl {
    pub fn parse(s: String) -> (r: Result<ImageUrl, String>)
        ensures
            r is Ok <==> spec_image_url_result(s@) is Ok,
            r matches Ok(u) ==> u@ == spec_image_url_result(s@)->Ok_0,
            r matches Err(e) ==> e@ == spec_image_url_result(s@)->Err_0,
    {
        let t = trim_to_string(s.as_str());
        if t.as_str().is_empty() {
            return Ok(ImageUrl(t));
        }
        if !validate_url_str(t.as_str()) {
            let mut m = t;
            m.append(" is not a valid url.");
            return Err(m);
        }
        match has_image_file_extension(&t) {
            Ok(_) => Ok(ImageUrl(t)),
            Err(m) => Err(m),
        }
    }

    pub fn as_str(&self) -> (r: &str)
        ensures
            r@ == self@,
    {
        self.0.as_str()
    }

    pub fn into_string(self) -> (r: String)
        ensures
            r@ == self@,
    {
        self.0
    }
}

} // verus!
