//! The state of the wallpaper daemon and the decisions it takes on each tick;
//! the caller performs the I/O that each decision asks for.
use vstd::prelude::*;

use crate::args::Args;
use crate::download::{DownloadError, Downloader};
use crate::model::ImageStoreItem;
use crate::order::lemma_sorted_by_created_contains;
use crate::schedule::{RefreshSchedule, SECS_PER_HOUR, NANOS_PER_SEC, elapsed};
use crate::store::{DirEntryInfo, FileStore, loaded_images, maintain_kept, maintain_removed};

verus! {

/// Why a step of the daemon failed.
pub enum AppError {
    /// A file-system operation or the wallpaper command failed.
    IoError(std::io::Error),
    /// Fetching the image list or an image failed.
    DownloadError(DownloadError),
}

impl From<DownloadError> for AppError {
    fn from(e: DownloadError) -> (r: AppError) {
        AppError::DownloadError(e)
    }
}

impl vstd::std_specs::convert::FromSpecImpl<DownloadError> for AppError {
    open spec fn obeys_from_spec() -> bool {
        true
    }

    open spec fn from_spec(e: DownloadError) -> AppError {
        AppError::DownloadError(e)
    }
}

/// The number of images that one request asks for, given the storage limit:
/// the limit taken modulo 256 (as a byte), capped at `Downloader::DOWNLOAD_COUNTS`.
pub open spec fn request_count(max_images: usize) -> u8 {
    let c = (max_images % 256) as u8;
    if c <= Downloader::DOWNLOAD_COUNTS {
        c
    } else {
        Downloader::DOWNLOAD_COUNTS
    }
}

/// The image that a finished download adds to the store: a newly written
/// file; an image that was already on disk, or a failed download, adds none.
pub open spec fn downloaded_image(o: Result<Option<ImageStoreItem>, DownloadError>) -> Option<
    ImageStoreItem,
> {
    match o {
        Ok(Some(item)) => Some(item),
        _ => None,
    }
}

/// The images that the finished downloads `os` add to the store, in order.
pub open spec fn downloaded_images(os: Seq<Result<Option<ImageStoreItem>, DownloadError>>) -> Seq<
    ImageStoreItem,
> {
    os.filter_map(|o: Result<Option<ImageStoreItem>, DownloadError>| downloaded_image(o))
}

/// The request count is the storage limit taken as a byte and capped at 10;
/// in particular a limit of at most 10 images is asked for as it is.
pub proof fn lemma_request_count(max_images: usize)
    ensures
        request_count(max_images) as int == if max_images % 256 <= 10 {
            max_images % 256
        } else {
            10
        },
        max_images <= 10 ==> request_count(max_images) == max_images,
        request_count(max_images) <= 10,
{
}

/// A finished download that wrote a new image file.
pub open spec fn wrote_new_image(o: Result<Option<ImageStoreItem>, DownloadError>) -> bool {
    o matches Ok(Some(_))
}

/// The images that finished downloads add are exactly the images of the
/// outcomes `Ok(Some(item))`, whatever their path or time, one for each such
/// outcome: every such item is added, nothing else is, and their number is
/// the number of such outcomes.
pub proof fn lemma_downloaded_images(os: Seq<Result<Option<ImageStoreItem>, DownloadError>>)
    ensures
        forall|k: int|
            0 <= k < os.len() ==> (#[trigger] os[k] matches Ok(Some(x)) ==> downloaded_images(
                os,
            ).contains(x)),
        forall|x: ImageStoreItem|
            #[trigger] downloaded_images(os).contains(x) ==> exists|k: int|
                0 <= k < os.len() && os[k] == Ok::<Option<ImageStoreItem>, DownloadError>(
                    Some(x),
                ),
        downloaded_images(os).len() == os.filter(
            |o: Result<Option<ImageStoreItem>, DownloadError>| wrote_new_image(o),
        ).len(),
    decreases os.len(),
{
    reveal(Seq::filter);
    let d = downloaded_images(os);
    if os.len() > 0 {
        let rest = os.drop_last();
        lemma_downloaded_images(rest);
        let dr = downloaded_images(rest);
        assert forall|k: int|
            0 <= k < os.len() implies (#[trigger] os[k] matches Ok(Some(x)) ==> d.contains(x)) by {
            if let Ok(Some(x)) = os[k] {
                if k == os.len() - 1 {
                    assert(d[d.len() - 1] == x);
                } else {
                    assert(rest[k] == os[k]);
                    assert(dr.contains(x));
                    let m = choose|m: int| 0 <= m < dr.len() && dr[m] == x;
                    assert(d[m] == x);
                }
            }
        }
        assert forall|x: ImageStoreItem| #[trigger] d.contains(x) implies exists|k: int|
            0 <= k < os.len() && os[k] == Ok::<Option<ImageStoreItem>, DownloadError>(
                Some(x),
            ) by {
            let m = choose|m: int| 0 <= m < d.len() && d[m] == x;
            if m < dr.len() {
                assert(dr[m] == x);
                assert(dr.contains(x));
                let k = choose|k: int|
                    0 <= k < rest.len() && rest[k] == Ok::<Option<ImageStoreItem>, DownloadError>(
                        Some(x),
                    );
                assert(os[k] == rest[k]);
            } else {
                assert(os[os.len() - 1] == Ok::<Option<ImageStoreItem>, DownloadError>(Some(x)));
            }
        }
    }
}

/// The daemon: its settings, its image store, its downloader and its refresh clock.
pub struct App {
    pub args: Args,
    pub file_store: FileStore,
    pub downloader: Downloader,
    pub schedule: RefreshSchedule,
}

impl App {
    /// The downloader and the refresh clock follow the settings: the size,
    /// directory and request count of the downloader, and the refresh interval
    /// (hours) of the clock.
    pub open spec fn wf(self) -> bool {
        &&& self.downloader.width == self.args.width
        &&& self.downloader.height == self.args.height
        &&& self.downloader.storage_path == self.args.storage_path
        &&& self.downloader.download_counts == request_count(self.args.max_images)
        &&& self.schedule.refresh_interval_secs == self.args.refresh_interval * SECS_PER_HOUR
    }

    /// A refresh is due at `now`: no list has been fetched yet, or at least
    /// `refresh_interval` hours have passed since the last fetch.
    pub open spec fn refresh_due_at(self, now: u64) -> bool {
        match self.schedule.last_download {
            None => true,
            Some(last) => elapsed(last, now) >= self.args.refresh_interval * SECS_PER_HOUR
                * NANOS_PER_SEC,
        }
    }

    /// The daemon's state at start-up: an empty store, a downloader for the
    /// configured size and directory, and a refresh that is due at once.
    pub fn new(args: Args) -> (app: App)
        requires
            args.refresh_interval * SECS_PER_HOUR <= u64::MAX,
        ensures
            app.args == args,
            app.file_store.items@ == Seq::<ImageStoreItem>::empty(),
            app.downloader.width == args.width,
            app.downloader.height == args.height,
            app.downloader.storage_path == args.storage_path,
            app.downloader.download_counts == request_count(args.max_images),
            app.downloader.download_counts as int == if args.max_images % 256 <= 10 {
                args.max_images % 256
            } else {
                10
            },
            app.schedule.refresh_interval_secs == args.refresh_interval * SECS_PER_HOUR,
            app.schedule.last_download is None,
            app.wf(),
    {
        let counts = (args.max_images % 256) as u8;
        let downloader = Downloader::new(args.width, args.height, args.storage_path.clone(), counts);
        let schedule = RefreshSchedule::new(args.refresh_interval);
        App { args, file_store: FileStore::new(), downloader, schedule }
    }

    /// Whether the image list should be fetched on a tick at `now`.
    pub fn should_refresh(&self, now: u64) -> (due: bool)
        ensures
            due == self.schedule.refresh_due(now),
            self.wf() ==> due == self.refresh_due_at(now),
    {
        self.schedule.should_refresh(now)
    }

    /// Takes in the outcomes of the downloads started after a successful fetch
    /// of the image list at `now`: the newly written images join the store, the
    /// fetch time is recorded, and the store is brought back within its limit.
    /// Returns the images given up, whose files (and metadata) are to be removed.
    pub fn complete_refresh(
        &mut self,
        outcomes: Vec<Result<Option<ImageStoreItem>, DownloadError>>,
        now: u64,
    ) -> (removed: Vec<ImageStoreItem>)
        ensures
            old(self).wf() ==> final(self).wf(),
            final(self).args == old(self).args,
            final(self).downloader == old(self).downloader,
            final(self).schedule.last_download == Some(now),
            final(self).schedule.refresh_interval_secs == old(self).schedule.refresh_interval_secs,
            removed@ == maintain_removed(
                old(self).file_store.items@ + downloaded_images(outcomes@),
                old(self).args.max_images as nat,
            ),
            final(self).file_store.items@ == maintain_kept(
                old(self).file_store.items@ + downloaded_images(outcomes@),
                old(self).args.max_images as nat,
            ),
            forall|k: int|
                0 <= k < outcomes@.len() ==> (#[trigger] outcomes@[k] matches Ok(Some(x)) ==> (
                removed@ + final(self).file_store.items@).contains(x)),
            forall|i: int|
                0 <= i < old(self).file_store.items@.len() ==> (removed@
                    + final(self).file_store.items@).contains(
                    #[trigger] old(self).file_store.items@[i],
                ),
            removed@.len() + final(self).file_store.items@.len() == old(self).file_store.items@.len()
                + outcomes@.filter(
                |o: Result<Option<ImageStoreItem>, DownloadError>| wrote_new_image(o),
            ).len(),
    {
        broadcast use Seq::lemma_filter_map_take_succ;

        let ghost os = outcomes@;
        assert(os.len() == outcomes.len());
        let ghost f = |o: Result<Option<ImageStoreItem>, DownloadError>| downloaded_image(o);
        let ghost start = self.file_store.items@;
        let mut rest = outcomes;
        let mut k: usize = 0;
        proof {
            assert(os.skip(0) =~= os);
            assert(os.take(0).filter_map(f) =~= Seq::<ImageStoreItem>::empty()) by {
                reveal_with_fuel(Seq::filter_map, 1);
            }
            assert(self.file_store.items@ =~= start + os.take(0).filter_map(f));
        }
        while rest.len() > 0
            invariant
                k + rest.len() == os.len(),
                os.len() <= usize::MAX,
                rest@ == os.skip(k as int),
                self.file_store.items@ == start + os.take(k as int).filter_map(f),
                f == (|o: Result<Option<ImageStoreItem>, DownloadError>| downloaded_image(o)),
                self.args == old(self).args,
                self.downloader == old(self).downloader,
                self.schedule == old(self).schedule,
            decreases rest.len(),
        {
            assert(rest@[0] == os[k as int]);
            let o = rest.remove(0);
            proof {
                assert(rest@ =~= os.skip(k + 1));
                os.lemma_filter_map_take_succ(f, k as int);
            }
            match o {
                Ok(Some(item)) => {
                    self.file_store.push(item);
                },
                _ => {},
            }
            proof {
                assert(self.file_store.items@ =~= start + os.take(k + 1).filter_map(f));
            }
            k = k + 1;
        }
        proof {
            assert(os.take(k as int) =~= os);
        }
        self.schedule.record_download(now);
        let removed = self.file_store.maintain(self.args.max_images);
        proof {
            let all = start + downloaded_images(os);
            assert(all == start + os.filter_map(f));
            lemma_downloaded_images(os);
            let both = removed@ + self.file_store.items@;
            lemma_sorted_by_created_contains(all, all[0]);
            assert forall|k: int|
                0 <= k < os.len() implies (#[trigger] os[k] matches Ok(Some(x)) ==> both.contains(
                x,
            )) by {
                if let Ok(Some(x)) = os[k] {
                    let dl = downloaded_images(os);
                    let m = choose|m: int| 0 <= m < dl.len() && dl[m] == x;
                    assert(all[start.len() + m] == x);
                    lemma_sorted_by_created_contains(all, x);
                }
            }
            assert forall|i: int| 0 <= i < start.len() implies both.contains(#[trigger] start[i]) by {
                assert(all[i] == start[i]);
                lemma_sorted_by_created_contains(all, start[i]);
            }
        }
        removed
    }

    /// Loads the images already in the storage directory from its listing
    /// `entries`; `now` is the wall-clock time given to files whose time is unknown.
    pub fn load_existing_images(&mut self, entries: Vec<DirEntryInfo>, now: i128)
        ensures
            old(self).wf() ==> final(self).wf(),
            final(self).args == old(self).args,
            final(self).downloader == old(self).downloader,
            final(self).schedule == old(self).schedule,
            final(self).file_store.items@ == old(self).file_store.items@ + loaded_images(
                entries@,
                now,
            ),
    {
        self.file_store.load_existing(entries, now);
    }

    /// Picks the image to show next: `None` (nothing to do) when the store is
    /// empty, else the index of a randomly drawn image.
    pub fn pick_wallpaper(&self) -> (pick: Option<usize>)
        ensures
            pick is None <==> self.file_store.items@.len() == 0,
            pick matches Some(i) ==> i < self.file_store.items@.len(),
    {
        self.file_store.pick_wallpaper()
    }

    /// The message of the daemon's I/O error when a wallpaper could not be shown.
    pub const WALLPAPER_FAILURE: &'static str = "Failed to set wallpaper";

    /// The result of showing a wallpaper, given what the wallpaper command
    /// gave: its failure becomes the message [`App::WALLPAPER_FAILURE`], which
    /// the caller raises as an I/O error (kind `Other`) of the daemon.
    pub fn wallpaper_result(shown: Result<(), std::io::Error>) -> (r: Result<(), String>)
        ensures
            r is Ok <==> shown is Ok,
            r matches Err(m) ==> m@ == Self::WALLPAPER_FAILURE@,
    {
        match shown {
            Ok(()) => Ok(()),
            Err(_) => Err(String::from_str(Self::WALLPAPER_FAILURE)),
        }
    }
}

} // verus!
