//! What the downloader asks the Bing image archive for, and where it puts the
//! images it gets. The HTTP exchange itself is left to the caller.
use vstd::prelude::*;
use vstd::string::*;

use crate::model::{Image, Query};
use crate::paths::{file_in_dir, path_joined};

verus! {

/// Declares `reqwest::Error`, carried opaquely by [`DownloadError`].
#[verifier::external_type_specification]
#[verifier::external_body]
pub struct ExReqwestError(reqwest::Error);

/// Declares `std::io::Error`, carried opaquely by the error types of the crate.
#[verifier::external_type_specification]
#[verifier::external_body]
pub struct ExIoError(std::io::Error);

/// Why fetching the image list or an image failed.
pub enum DownloadError {
    /// The HTTP request failed.
    RequestError(reqwest::Error),
    /// The answer was not the expected JSON.
    JsonError(reqwest::Error),
    /// Writing the image file failed.
    IoError(std::io::Error),
}

/// Settings of the image downloader.
pub struct Downloader {
    pub width: u32,
    pub height: u32,
    /// Directory where the images are stored.
    pub storage_path: String,
    /// How many images one request asks for; never more than `DOWNLOAD_COUNTS`.
    pub download_counts: u8,
}

/// The name under which an image is stored: `<startdate>_<hsh>.jpg`.
pub open spec fn image_file_name_of(image: Image) -> Seq<char> {
    image.startdate@ + seq!['_'] + image.hsh@ + seq!['.', 'j', 'p', 'g']
}

/// The stored name of an image is its start date, `_`, its hash and `.jpg`,
/// whatever they hold; it ends in `.jpg`, so with a start date it has the
/// extension `jpg` and is taken in again when the storage directory is loaded.
pub proof fn lemma_image_file_name(image: Image)
    ensures
        image_file_name_of(image) == image.startdate@ + seq!['_'] + image.hsh@ + seq![
            '.',
            'j',
            'p',
            'g',
        ],
        image_file_name_of(image).len() == image.startdate@.len() + image.hsh@.len() + 5,
        image_file_name_of(image).subrange(
            image_file_name_of(image).len() - 4,
            image_file_name_of(image).len() as int,
        ) == seq!['.', 'j', 'p', 'g'],
        image.startdate@.len() > 0 ==> crate::store::is_jpg_name(image_file_name_of(image)),
{
    let n = image_file_name_of(image);
    assert(n.subrange(n.len() - 4, n.len() as int) =~= seq!['.', 'j', 'p', 'g']);
}

impl Downloader {
    /// Host that image URLs of the archive are relative to.
    pub const BING_BASE_URL: &'static str = "https://www.bing.com";

    /// Endpoint that lists the archive's images.
    pub const BING_WALLPAPER_URL: &'static str = "https://www.bing.com/HPImageArchive.aspx";

    /// Answer format asked of the archive (JSON).
    pub const RESPONSE_FORMAT: &'static str = "js";

    /// Market whose images are listed.
    pub const MARKET: &'static str = "en-US";

    /// Largest number of images that one request asks for.
    pub const DOWNLOAD_COUNTS: u8 = 10;

    /// Creates a downloader; the requested count is capped at `DOWNLOAD_COUNTS`.
    pub fn new(width: u32, height: u32, storage_path: String, download_counts: u8) -> (d:
        Downloader)
        ensures
            d.width == width,
            d.height == height,
            d.storage_path == storage_path,
            d.download_counts <= Self::DOWNLOAD_COUNTS,
            d.download_counts == (if download_counts <= Self::DOWNLOAD_COUNTS {
                download_counts
            } else {
                Self::DOWNLOAD_COUNTS
            }),
    {
        let counts = if download_counts <= Self::DOWNLOAD_COUNTS {
            download_counts
        } else {
            Self::DOWNLOAD_COUNTS
        };
        Downloader { width, height, storage_path, download_counts: counts }
    }

    /// The query string that asks the archive for the newest images, in this
    /// downloader's size and count, as ultra-high-definition images of the
    /// `en-US` market in JSON.
    pub fn image_list_query(&self) -> (q: Query<'static>)
        ensures
            q.format@ == Self::RESPONSE_FORMAT@,
            q.idx == 0,
            q.n == self.download_counts,
            q.mkt@ == Self::MARKET@,
            q.uhd == 1,
            q.uhdwidth == self.width,
            q.uhdheight == self.height,
    {
        Query {
            format: Self::RESPONSE_FORMAT,
            idx: 0,
            n: self.download_counts,
            mkt: Self::MARKET,
            uhd: 1,
            uhdwidth: self.width,
            uhdheight: self.height,
        }
    }

    /// The full URL of `image`: its archive URL after the archive's host.
    pub fn image_url(&self, image: &Image) -> (url: String)
        ensures
            url@ == Self::BING_BASE_URL@ + image.url@,
    {
        let base = String::from_str(Self::BING_BASE_URL);
        base.concat(image.url.as_str())
    }

    /// The file name under which `image` is stored.
    pub fn image_file_name(&self, image: &Image) -> (name: String)
        ensures
            name@ == image_file_name_of(*image),
            name@ == image.startdate@ + seq!['_'] + image.hsh@ + seq!['.', 'j', 'p', 'g'],
    {
        let mut name = image.startdate.clone();
        name.append("_");
        name.append(image.hsh.as_str());
        name.append(".jpg");
        proof {
            reveal_strlit("_");
            reveal_strlit(".jpg");
        }
        name
    }

    /// The path under which `image` is stored: its file name in the storage
    /// directory, that is `<storage_path>/<file name>` when the storage path is
    /// not empty and does not end in `/` and the file name is relative.
    pub fn image_path(&self, image: &Image) -> (path: String)
        ensures
            path@ == path_joined(self.storage_path@, image_file_name_of(*image)),
            !(image.startdate@.len() > 0 && image.startdate@[0] == '/')
                && self.storage_path@.len() > 0 && self.storage_path@.last() != '/' ==> path@
                == self.storage_path@ + seq!['/'] + image_file_name_of(*image),
    {
        let name = self.image_file_name(image);
        file_in_dir(self.storage_path.as_str(), name.as_str())
    }
}

} // verus!
