use vstd::prelude::*;

verus! {

/// One eagerly generated transformation in an image-processor upload
/// response.
pub struct EagerTransformation {
    pub secure_url: String,
    pub bytes: u32,
    pub format: String,
    pub height: u32,
    pub transformation: String,
    pub url: String,
    pub width: u32,
}

/// The fields of an image-processor upload response that the service reads,
/// as plain values; the HTTP client in front of the library fills them in.
pub struct CloudinaryUploadResponse {
    pub eager: Option<Vec<EagerTransformation>>,
    pub secure_url: String,
    pub api_key: String,
    pub asset_folder: String,
    pub asset_id: String,
    pub bytes: u32,
    pub created_at: String,
    pub display_name: String,
    pub etag: String,
    pub format: String,
    pub height: u32,
    pub overwritten: Option<bool>,
    pub pages: u32,
    pub placeholder: bool,
    pub public_id: String,
    pub resource_type: String,
    pub signature: String,
    pub url: String,
    pub version_id: String,
    pub version: u32,
    pub width: u32,
}

impl CloudinaryUploadResponse {
    /// The URL the processed image is fetched from: the first eager
    /// transformation when one was requested, else the upload itself.
    pub fn effective_secure_url(&self) -> (r: String)
        requires
            self.eager matches Some(v) ==> v@.len() > 0,
        ensures
            self.eager matches Some(v) ==> r@ == v@[0].secure_url@,
            self.eager is None ==> r@ == self.secure_url@,
    {
        match &self.eager {
            Some(e) => String::from_str(e[0].secure_url.as_str()),
            None => String::from_str(self.secure_url.as_str()),
        }
    }
}

} // verus!
