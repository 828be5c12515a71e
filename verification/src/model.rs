use vstd::prelude::*;

verus! {

/// The query string of a request for the image archive.
pub struct Query<'a> {
    pub format: &'a str,
    pub idx: u8,
    pub n: u8,
    pub mkt: &'a str,
    pub uhd: u8,
    pub uhdwidth: u32,
    pub uhdheight: u32,
}

/// One image of the archive's answer.
pub struct Image {
    pub startdate: String,
    pub url: String,
    pub copyright: String,
    pub copyrightlink: String,
    pub title: String,
    pub hsh: String,
}

/// The descriptive part of an [`Image`].
pub struct ImageMetaData {
    pub copyright: String,
    pub copyrightlink: String,
    pub title: String,
}

impl<'a> From<&'a Image> for ImageMetaData {
    fn from(value: &'a Image) -> (m: ImageMetaData) {
        ImageMetaData {
            copyright: value.copyright.clone(),
            copyrightlink: value.copyrightlink.clone(),
            title: value.title.clone(),
        }
    }
}

impl<'a> vstd::std_specs::convert::FromSpecImpl<&'a Image> for ImageMetaData {
    open spec fn obeys_from_spec() -> bool {
        true
    }

    /// The metadata of an image are its copyright line, its copyright link and its title.
    open spec fn from_spec(value: &'a Image) -> ImageMetaData {
        ImageMetaData {
            copyright: value.copyright,
            copyrightlink: value.copyrightlink,
            title: value.title,
        }
    }
}

/// The archive's answer to a query.
pub struct ApiResponse {
    pub images: Vec<Image>,
}

/// An image file held in the local store.
///
/// `file_created` is the file's time in nanoseconds relative to the Unix epoch
/// (negative before it); the store orders its images by it.
pub struct ImageStoreItem {
    pub path: String,
    pub file_created: i128,
}

} // verus!
