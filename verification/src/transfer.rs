//! Transfers and their download targets: where each put.io file or folder
//! of a finished transfer is written on the local disk.

use vstd::prelude::*;
use crate::categories::CategoryMap;
use crate::media::{media_for_file_name, media_for_file_type, MediaType};
use crate::putio::{ListFileResponse, PutIOTransfer};
use crate::text::{contains_text, join_path, joined, same_text, to_lowercase, unicode_lowercase};

verus! {

/// The text held by an optional string.
pub open spec fn opt_text(o: Option<String>) -> Option<Seq<char>> {
    match o {
        Some(s) => Some(s@),
        None => None,
    }
}

/// Copies an optional string.
pub fn copy_opt_text(o: &Option<String>) -> (r: Option<String>)
    ensures
        r == *o,
{
    match o {
        Some(s) => Some(s.clone()),
        None => None,
    }
}

/// Whether a target is a directory to create or a file to fetch.
#[derive(PartialEq, Eq, Structural, Debug, Clone, Copy)]
pub enum TargetType {
    Directory,
    File,
}

/// One thing to create on the local disk: a directory, or a file fetched
/// from the URL in `from`.
#[derive(Debug)]
pub struct DownloadTarget {
    pub from: Option<String>,
    pub to: String,
    pub target_type: TargetType,
    pub top_level: bool,
    pub transfer_hash: String,
    pub media_type: Option<MediaType>,
}

/// A download target as plain values.
pub struct DownloadTargetView {
    pub from: Option<Seq<char>>,
    pub to: Seq<char>,
    pub target_type: TargetType,
    pub top_level: bool,
    pub transfer_hash: Seq<char>,
    pub media_type: Option<MediaType>,
}

impl View for DownloadTarget {
    type V = DownloadTargetView;

    open spec fn view(&self) -> DownloadTargetView {
        DownloadTargetView {
            from: opt_text(self.from),
            to: self.to@,
            target_type: self.target_type,
            top_level: self.top_level,
            transfer_hash: self.transfer_hash@,
            media_type: self.media_type,
        }
    }
}

impl DownloadTarget {
    /// A field-by-field copy.
    pub fn duplicate(&self) -> (r: DownloadTarget)
        ensures
            r == *self,
    {
        DownloadTarget {
            from: copy_opt_text(&self.from),
            to: self.to.clone(),
            target_type: self.target_type,
            top_level: self.top_level,
            transfer_hash: self.transfer_hash.clone(),
            media_type: self.media_type,
        }
    }
}

/// A put.io transfer as the download system follows it.
#[derive(Debug)]
pub struct Transfer {
    pub name: String,
    pub file_id: Option<i64>,
    pub hash: Option<String>,
    pub transfer_id: u64,
    pub targets: Option<Vec<DownloadTarget>>,
}

/// Messages that move a transfer through the download system.
#[derive(Debug)]
pub enum TransferMessage {
    QueuedForDownload(Transfer),
    Downloaded(Transfer),
    Imported(Transfer),
}

/// Why targets cannot be computed for a transfer.
#[derive(PartialEq, Eq, Structural, Debug, Clone, Copy)]
pub enum TransferError {
    /// put.io has not stored any file for the transfer yet.
    MissingFileId,
}

/// The hash under which a transfer's category is looked up.
pub open spec fn hash_or_default(hash: Option<String>) -> Seq<char> {
    match hash {
        Some(h) => h@,
        None => "0000"@,
    }
}

/// Whether a verdict row holds at least one `true`.
pub open spec fn any_true(row: Seq<bool>) -> bool {
    exists|j: int| 0 <= j < row.len() && row[j]
}

/// A target that the *arr applications import: a media file (audio, video
/// or subtitles). The other files of a folder are downloaded alongside.
pub open spec fn is_media_file(t: DownloadTarget) -> bool {
    t.target_type == TargetType::File && t.media_type is Some
}

/// Whether every media file target is confirmed by at least one verdict of
/// its row.
pub open spec fn all_files_imported(targets: Seq<DownloadTarget>, verdicts: Seq<Vec<bool>>) -> bool {
    forall|i: int|
        0 <= i < targets.len() && is_media_file(targets[i]) ==> any_true(#[trigger] verdicts[i]@)
}

/// A request to list one put.io file or folder and place it on disk.
#[derive(Debug)]
pub struct ListingRequest {
    pub file_id: i64,
    /// Directory below which this entry goes (the download directory at the
    /// top, the parent folder's target further down).
    pub base_path: String,
    /// Category of the transfer, a subdirectory of the download directory.
    pub category: Option<String>,
    pub top_level: bool,
    /// Name of the transfer; set at the top only.
    pub transfer_name: Option<String>,
    pub hash: String,
}

pub struct ListingRequestView {
    pub file_id: i64,
    pub base_path: Seq<char>,
    pub category: Option<Seq<char>>,
    pub top_level: bool,
    pub transfer_name: Option<Seq<char>>,
    pub hash: Seq<char>,
}

impl View for ListingRequest {
    type V = ListingRequestView;

    open spec fn view(&self) -> ListingRequestView {
        ListingRequestView {
            file_id: self.file_id,
            base_path: self.base_path@,
            category: opt_text(self.category),
            top_level: self.top_level,
            transfer_name: opt_text(self.transfer_name),
            hash: self.hash@,
        }
    }
}

/// A file whose target only lacks its download URL.
#[derive(Debug)]
pub struct PendingFile {
    pub file_id: i64,
    pub to: String,
    pub top_level: bool,
    pub transfer_hash: String,
    pub media_type: Option<MediaType>,
}

pub struct PendingFileView {
    pub file_id: i64,
    pub to: Seq<char>,
    pub top_level: bool,
    pub transfer_hash: Seq<char>,
    pub media_type: Option<MediaType>,
}

impl View for PendingFile {
    type V = PendingFileView;

    open spec fn view(&self) -> PendingFileView {
        PendingFileView {
            file_id: self.file_id,
            to: self.to@,
            top_level: self.top_level,
            transfer_hash: self.transfer_hash@,
            media_type: self.media_type,
        }
    }
}

/// What to do with one listed put.io entry.
#[derive(Debug)]
pub enum ListingPlan {
    /// Create `directory`, then list each child with its request.
    Folder { directory: DownloadTarget, children: Vec<ListingRequest> },
    /// A folder named in the skip list: nothing is downloaded from it.
    SkippedFolder,
    /// A file to fetch (after creating `wrapper`, if present): a media file
    /// at the top of a transfer, or any file inside a downloaded folder.
    File { wrapper: Option<DownloadTarget>, file: PendingFile },
    /// A file at the top of a transfer that is neither audio, video nor
    /// subtitles.
    SkippedFile,
}

pub enum ListingPlanView {
    Folder { directory: DownloadTargetView, children: Seq<ListingRequestView> },
    SkippedFolder,
    File { wrapper: Option<DownloadTargetView>, file: PendingFileView },
    SkippedFile,
}

impl View for ListingPlan {
    type V = ListingPlanView;

    open spec fn view(&self) -> ListingPlanView {
        match self {
            ListingPlan::Folder { directory, children } => ListingPlanView::Folder {
                directory: directory@,
                children: children@.map_values(|c: ListingRequest| c@),
            },
            ListingPlan::SkippedFolder => ListingPlanView::SkippedFolder,
            ListingPlan::File { wrapper, file } => ListingPlanView::File {
                wrapper: match wrapper {
                    Some(w) => Some(w@),
                    None => None,
                },
                file: file@,
            },
            ListingPlan::SkippedFile => ListingPlanView::SkippedFile,
        }
    }
}

/// Directory that top-level entries of a transfer go below: the download
/// directory, or its subdirectory named after the category.
pub open spec fn effective_base(req: ListingRequestView) -> Seq<char> {
    match req.category {
        Some(c) => joined(req.base_path, c),
        None => req.base_path,
    }
}

/// Where a listed entry named `name` is placed. At the top, below a
/// directory named after the transfer (a single file goes inside it);
/// further down, below the parent folder's target.
pub open spec fn destination(req: ListingRequestView, name: Seq<char>, is_folder: bool) -> Seq<
    char,
> {
    if req.top_level {
        match req.transfer_name {
            Some(t) => if is_folder {
                joined(effective_base(req), t)
            } else {
                joined(joined(effective_base(req), t), name)
            },
            None => joined(effective_base(req), name),
        }
    } else {
        joined(req.base_path, name)
    }
}

/// A directory target.
pub open spec fn directory_target(to: Seq<char>, top_level: bool, hash: Seq<char>) -> DownloadTargetView {
    DownloadTargetView {
        from: None,
        to,
        target_type: TargetType::Directory,
        top_level,
        transfer_hash: hash,
        media_type: None,
    }
}

/// Media type of a listed file: put.io's own file type, or else its extension.
pub open spec fn listed_media(name: Seq<char>, file_type: Seq<char>) -> Option<MediaType> {
    match media_for_file_type(file_type) {
        Some(m) => Some(m),
        None => media_for_file_name(name),
    }
}

/// Whether the lower-cased folder name is in the skip list.
pub open spec fn is_skipped(skip: Seq<Seq<char>>, name: Seq<char>) -> bool {
    exists|i: int| 0 <= i < skip.len() && skip[i] == unicode_lowercase(name)
}

/// The request for one child of a folder whose target is `to`.
pub open spec fn child_request(req: ListingRequestView, to: Seq<char>, id: i64) -> ListingRequestView {
    ListingRequestView {
        file_id: id,
        base_path: to,
        category: req.category,
        top_level: false,
        transfer_name: None,
        hash: req.hash,
    }
}

/// The plan for a listed entry.
pub open spec fn listing_plan(
    req: ListingRequestView,
    id: i64,
    name: Seq<char>,
    file_type: Seq<char>,
    child_ids: Seq<i64>,
    skip: Seq<Seq<char>>,
) -> ListingPlanView {
    let is_folder = file_type == "FOLDER"@;
    let to = destination(req, name, is_folder);
    if is_folder {
        if is_skipped(skip, name) {
            ListingPlanView::SkippedFolder
        } else {
            ListingPlanView::Folder {
                directory: directory_target(to, req.top_level, req.hash),
                children: child_ids.map_values(|c: i64| child_request(req, to, c)),
            }
        }
    } else {
        let m = listed_media(name, file_type);
        if req.top_level && m is None {
            ListingPlanView::SkippedFile
        } else {
            ListingPlanView::File {
                wrapper: if req.top_level && req.transfer_name is Some {
                    Some(directory_target(joined(effective_base(req), req.transfer_name->0), true, req.hash))
                } else {
                    None
                },
                file: PendingFileView { file_id: id, to, top_level: req.top_level, transfer_hash: req.hash, media_type: m },
            }
        }
    }
}

pub open spec fn text_views(v: Seq<String>) -> Seq<Seq<char>> {
    v.map_values(|s: String| s@)
}

pub open spec fn file_ids(files: Seq<crate::putio::FileResponse>) -> Seq<i64> {
    files.map_values(|f: crate::putio::FileResponse| f.id)
}

impl ListingRequest {
    /// A field-by-field copy.
    pub fn duplicate(&self) -> (r: ListingRequest)
        ensures
            r@ == self@,
    {
        ListingRequest {
            file_id: self.file_id,
            base_path: self.base_path.clone(),
            category: copy_opt_text(&self.category),
            top_level: self.top_level,
            transfer_name: copy_opt_text(&self.transfer_name),
            hash: self.hash.clone(),
        }
    }

    fn effective_base(&self) -> (r: String)
        ensures
            r@ == effective_base(self@),
    {
        match &self.category {
            Some(c) => join_path(self.base_path.as_str(), c.as_str()),
            None => self.base_path.clone(),
        }
    }

    /// Decides what to do with the entry that put.io listed for this request:
    /// where it goes, whether it is a folder to descend into, a file to fetch
    /// (any file inside a folder, only media at the top), or something to skip.
    pub fn plan(&self, listing: &ListFileResponse, skip_directories: &Vec<String>) -> (r: ListingPlan)
        ensures
            r@ == listing_plan(
                self@,
                listing.parent.id,
                listing.parent.name@,
                listing.parent.file_type@,
                file_ids(listing.files@),
                text_views(skip_directories@),
            ),
    {
        let parent = &listing.parent;
        let is_folder = same_text(parent.file_type.as_str(), "FOLDER");
        let to: String = if self.top_level {
            match &self.transfer_name {
                Some(t) => {
                    let eff = self.effective_base();
                    if is_folder {
                        join_path(eff.as_str(), t.as_str())
                    } else {
                        let dir = join_path(eff.as_str(), t.as_str());
                        join_path(dir.as_str(), parent.name.as_str())
                    }
                },
                None => {
                    let eff = self.effective_base();
                    join_path(eff.as_str(), parent.name.as_str())
                },
            }
        } else {
            join_path(self.base_path.as_str(), parent.name.as_str())
        };
        let ghost skip = text_views(skip_directories@);
        if is_folder {
            let lower = to_lowercase(parent.name.as_str());
            let skipped = contains_text(skip_directories, lower.as_str());
            proof {
                if skipped {
                    let i = choose|i: int|
                        0 <= i < skip_directories@.len() && skip_directories@[i]@ == lower@;
                    assert(skip[i] == unicode_lowercase(parent.name@));
                }
                if is_skipped(skip, parent.name@) {
                    let i = choose|i: int| 0 <= i < skip.len() && skip[i] == unicode_lowercase(parent.name@);
                    assert(skip_directories@[i]@ == lower@);
                }
            }
            if skipped {
                return ListingPlan::SkippedFolder;
            }
            let mut children: Vec<ListingRequest> = Vec::new();
            let mut k: usize = 0;
            while k < listing.files.len()
                invariant
                    k <= listing.files@.len(),
                    children@.len() == k,
                    forall|j: int|
                        0 <= j < k ==> #[trigger] children@[j]@ == child_request(
                            self@,
                            to@,
                            listing.files@[j].id,
                        ),
                decreases listing.files.len() - k,
            {
                children.push(
                    ListingRequest {
                        file_id: listing.files[k].id,
                        base_path: to.clone(),
                        category: copy_opt_text(&self.category),
                        top_level: false,
                        transfer_name: None,
                        hash: self.hash.clone(),
                    },
                );
                k += 1;
            }
            let directory = DownloadTarget {
                from: None,
                to,
                target_type: TargetType::Directory,
                top_level: self.top_level,
                transfer_hash: self.hash.clone(),
                media_type: None,
            };
            let r = ListingPlan::Folder { directory, children };
            assert(children@.map_values(|c: ListingRequest| c@) =~= file_ids(listing.files@).map_values(
                |c: i64| child_request(self@, to@, c),
            ));
            r
        } else {
            let media = match MediaType::from_file_type_str(parent.file_type.as_str()) {
                Some(m) => Some(m),
                None => MediaType::from_file_name(parent.name.as_str()),
            };
            if self.top_level && media.is_none() {
                ListingPlan::SkippedFile
            } else {
                {
                    let wrapper = if self.top_level && self.transfer_name.is_some() {
                        let eff = self.effective_base();
                        let t = self.transfer_name.as_ref().unwrap();
                        Some(
                            DownloadTarget {
                                from: None,
                                to: join_path(eff.as_str(), t.as_str()),
                                target_type: TargetType::Directory,
                                top_level: true,
                                transfer_hash: self.hash.clone(),
                                media_type: None,
                            },
                        )
                    } else {
                        None
                    };
                    let file = PendingFile {
                        file_id: parent.id,
                        to,
                        top_level: self.top_level,
                        transfer_hash: self.hash.clone(),
                        media_type: media,
                    };
                    ListingPlan::File { wrapper, file }
                }
            }
        }
    }
}

/// The file target of a pending media file, once its URL is known.
pub open spec fn fetched_target(file: PendingFileView, url: Seq<char>) -> DownloadTargetView {
    DownloadTargetView {
        from: Some(url),
        to: file.to,
        target_type: TargetType::File,
        top_level: file.top_level,
        transfer_hash: file.transfer_hash,
        media_type: file.media_type,
    }
}

/// The targets of a file: its wrapping directory, if any, then the file
/// fetched from `url`.
pub fn file_targets(wrapper: Option<DownloadTarget>, file: PendingFile, url: String) -> (r: Vec<
    DownloadTarget,
>)
    ensures
        r@.map_values(|t: DownloadTarget| t@) == match wrapper {
            Some(w) => seq![w@, fetched_target(file@, url@)],
            None => seq![fetched_target(file@, url@)],
        },
{
    let ghost fv = file@;
    let ghost uv = url@;
    let ghost wv = wrapper;
    let target = DownloadTarget {
        from: Some(url),
        to: file.to,
        target_type: TargetType::File,
        top_level: file.top_level,
        transfer_hash: file.transfer_hash,
        media_type: file.media_type,
    };
    let mut r: Vec<DownloadTarget> = Vec::new();
    match wrapper {
        Some(w) => {
            r.push(w);
        },
        None => {},
    }
    r.push(target);
    proof {
        match wv {
            Some(w) => {
                assert(r@.map_values(|t: DownloadTarget| t@) =~= seq![w@, fetched_target(fv, uv)]);
            },
            None => {
                assert(r@.map_values(|t: DownloadTarget| t@) =~= seq![fetched_target(fv, uv)]);
            },
        }
    }
    r
}

impl Transfer {
    /// The transfer as the download system first sees it, named `Unknown`
    /// when put.io gives no name, with no targets yet.
    pub fn from(transfer: &PutIOTransfer) -> (r: Transfer)
        ensures
            r.transfer_id == transfer.id,
            r.name@ == match transfer.name {
                Some(n) => n@,
                None => "Unknown"@,
            },
            r.file_id == transfer.file_id,
            r.hash == transfer.hash,
            r.targets is None,
    {
        let name = match &transfer.name {
            Some(n) => n.clone(),
            None => String::from_str("Unknown"),
        };
        Transfer {
            transfer_id: transfer.id,
            name,
            file_id: transfer.file_id,
            targets: None,
            hash: copy_opt_text(&transfer.hash),
        }
    }

    /// The category recorded for the transfer's hash.
    pub fn category(&self, categories: &CategoryMap) -> (r: Option<String>)
        ensures
            match r {
                Some(c) => self.hash is Some && categories@.contains_key(self.hash->0@)
                    && categories@[self.hash->0@] == c@,
                None => self.hash is None || !categories@.contains_key(self.hash->0@),
            },
    {
        match &self.hash {
            Some(h) => categories.get(h.as_str()),
            None => None,
        }
    }

    /// The first target placed at the top of the download directory.
    pub fn get_top_level(&self) -> (r: Option<DownloadTarget>)
        ensures
            match r {
                Some(t) => self.targets is Some && exists|i: int|
                    0 <= i < self.targets->0@.len() && self.targets->0@[i] == t && t.top_level
                        && forall|j: int| 0 <= j < i ==> !(#[trigger] self.targets->0@[j]).top_level,
                None => self.targets is None || forall|j: int|
                    0 <= j < self.targets->0@.len() ==> !(#[trigger] self.targets->0@[j]).top_level,
            },
    {
        match &self.targets {
            None => None,
            Some(targets) => {
                let mut i: usize = 0;
                while i < targets.len()
                    invariant
                        self.targets == Some(*targets),
                        i <= targets@.len(),
                        forall|j: int| 0 <= j < i ==> !(#[trigger] targets@[j]).top_level,
                    decreases targets.len() - i,
                {
                    if targets[i].top_level {
                        let t = targets[i].duplicate();
                        assert(self.targets->0@[i as int] == t);
                        return Some(t);
                    }
                    i += 1;
                }
                None
            },
        }
    }

    /// Whether the transfer has been imported: it has targets and each media
    /// file target is reported imported by at least one application.
    /// `verdicts[i]` holds the answers of the applications for target `i`
    /// (any row will do for a directory or another file).
    pub fn is_imported(&self, verdicts: &Vec<Vec<bool>>) -> (r: bool)
        requires
            self.targets is Some ==> verdicts@.len() == self.targets->0@.len(),
        ensures
            r == (self.targets is Some && all_files_imported(self.targets->0@, verdicts@)),
    {
        match &self.targets {
            None => false,
            Some(targets) => {
                let mut i: usize = 0;
                while i < targets.len()
                    invariant
                        self.targets == Some(*targets),
                        i <= targets@.len(),
                        verdicts@.len() == targets@.len(),
                        forall|k: int|
                            0 <= k < i && is_media_file(targets@[k]) ==> any_true(
                                #[trigger] verdicts@[k]@,
                            ),
                    decreases targets.len() - i,
                {
                    if targets[i].target_type == TargetType::File && targets[i].media_type.is_some() {
                        let row = &verdicts[i];
                        let mut found = false;
                        let mut j: usize = 0;
                        while j < row.len()
                            invariant
                                j <= row@.len(),
                                found == exists|q: int| 0 <= q < j && row@[q],
                            decreases row.len() - j,
                        {
                            if row[j] {
                                found = true;
                            }
                            j += 1;
                        }
                        if !found {
                            assert(row@ == verdicts@[i as int]@);
                            assert(!any_true(verdicts@[i as int]@));
                            assert(!all_files_imported(targets@, verdicts@));
                            return false;
                        }
                    }
                    i += 1;
                }
                true
            },
        }
    }

    /// The listing request for the top of the transfer: its put.io file,
    /// placed below the download directory (and the category's subdirectory)
    /// in a directory named after the transfer.
    pub fn get_download_targets(&self, download_directory: &str, categories: &CategoryMap) -> (r:
        Result<ListingRequest, TransferError>)
        ensures
            match r {
                Ok(req) => self.file_id is Some && req@ == (ListingRequestView {
                    file_id: self.file_id->0,
                    base_path: download_directory@,
                    category: if categories@.contains_key(hash_or_default(self.hash)) {
                        Some(categories@[hash_or_default(self.hash)])
                    } else {
                        None
                    },
                    top_level: true,
                    transfer_name: Some(self.name@),
                    hash: hash_or_default(self.hash),
                }),
                Err(e) => self.file_id is None && e == TransferError::MissingFileId,
            },
    {
        let hash = match &self.hash {
            Some(h) => h.clone(),
            None => String::from_str("0000"),
        };
        let file_id = match self.file_id {
            Some(id) => id,
            None => {
                return Err(TransferError::MissingFileId);
            },
        };
        let category = categories.get(hash.as_str());
        Ok(
            ListingRequest {
                file_id,
                base_path: String::from_str(download_directory),
                category,
                top_level: true,
                transfer_name: Some(self.name.clone()),
                hash,
            },
        )
    }
}

} // verus!

verus! {

/// A transfer's top entry always lands in a directory named after the
/// transfer (the torrent name the *arr application expects), below the
/// category's subdirectory when there is one; a single file goes inside that
/// directory, and a folder's children are placed inside it.
pub proof fn law_top_level_directory_named_after_transfer(
    req: ListingRequestView,
    id: i64,
    name: Seq<char>,
    file_type: Seq<char>,
    child_ids: Seq<i64>,
    skip: Seq<Seq<char>>,
)
    requires
        req.top_level,
        req.transfer_name is Some,
    ensures
        ({
            let dir = joined(effective_base(req), req.transfer_name->0);
            match listing_plan(req, id, name, file_type, child_ids, skip) {
                ListingPlanView::Folder { directory, children } => {
                    &&& directory == directory_target(dir, true, req.hash)
                    &&& forall|i: int|
                        0 <= i < children.len() ==> (#[trigger] children[i]).base_path == dir
                            && !children[i].top_level
                },
                ListingPlanView::File { wrapper, file } => {
                    &&& wrapper == Some(directory_target(dir, true, req.hash))
                    &&& file.to == joined(dir, name)
                },
                _ => true,
            }
        }),
{
}

/// The category of a transfer names a subdirectory of the download
/// directory, and everything of the transfer goes below it.
pub proof fn law_category_subdirectory(req: ListingRequestView, name: Seq<char>, is_folder: bool)
    requires
        req.top_level,
        req.category is Some,
    ensures
        effective_base(req) == joined(req.base_path, req.category->0),
        req.transfer_name is Some ==> (is_folder ==> destination(req, name, is_folder) == joined(
            joined(req.base_path, req.category->0),
            req.transfer_name->0,
        )),
{
}

} // verus!

verus! {

/// A name that does not start with `/` (joining it to a directory stays
/// inside that directory).
pub open spec fn relative_name(name: Seq<char>) -> bool {
    !(name.len() > 0 && name[0] == '/')
}

/// A path placed inside directory `dir` under some relative entry name.
pub open spec fn placed_in(path: Seq<char>, dir: Seq<char>) -> bool {
    exists|name: Seq<char>| relative_name(name) && path == #[trigger] joined(dir, name)
}

/// put.io lists every entry under a relative name.
pub open spec fn names_relative(listing: spec_fn(i64) -> ListFileResponse) -> bool {
    forall|id: i64| relative_name(#[trigger] listing(id).parent.name@)
}

/// The targets that walking a transfer from `req` collects, in order, when
/// put.io lists entry `id` as `listing(id)` and, where that entry is a file
/// to download, hands out `url(id)` as its download URL: a folder's directory, then the targets of its
/// children in put.io's order; a file's wrapping directory, if any, then the
/// file; nothing for what is skipped. `depth` bounds how far the walk goes.
pub open spec fn collected_targets(
    req: ListingRequestView,
    listing: spec_fn(i64) -> ListFileResponse,
    url: spec_fn(i64) -> Seq<char>,
    skip: Seq<Seq<char>>,
    depth: nat,
) -> Seq<DownloadTargetView>
    decreases depth, 0nat,
{
    if depth == 0 {
        Seq::<DownloadTargetView>::empty()
    } else {
        let l = listing(req.file_id);
        match listing_plan(req, l.parent.id, l.parent.name@, l.parent.file_type@, file_ids(l.files@), skip) {
            ListingPlanView::Folder { directory, children } => seq![directory] + collected_children(
                children,
                listing,
                url,
                skip,
                (depth - 1) as nat,
            ),
            ListingPlanView::File { wrapper, file } => match wrapper {
                Some(w) => seq![w, fetched_target(file, url(req.file_id))],
                None => seq![fetched_target(file, url(req.file_id))],
            },
            _ => Seq::<DownloadTargetView>::empty(),
        }
    }
}

/// The targets collected from each request in turn.
pub open spec fn collected_children(
    cs: Seq<ListingRequestView>,
    listing: spec_fn(i64) -> ListFileResponse,
    url: spec_fn(i64) -> Seq<char>,
    skip: Seq<Seq<char>>,
    depth: nat,
) -> Seq<DownloadTargetView>
    decreases depth, cs.len(),
{
    if cs.len() == 0 {
        Seq::<DownloadTargetView>::empty()
    } else {
        collected_children(cs.drop_last(), listing, url, skip, depth) + collected_targets(
            cs.last(),
            listing,
            url,
            skip,
            depth,
        )
    }
}

/// A media type that put.io's listing gives some entry (by its file type,
/// else its name).
pub open spec fn media_listed(listing: spec_fn(i64) -> ListFileResponse, m: Option<MediaType>) -> bool {
    exists|id: i64|
        m == listed_media(#[trigger] listing(id).parent.name@, listing(id).parent.file_type@)
}

/// What holds of each target collected from a request: it carries the
/// transfer's hash; it is a directory exactly when it has no download URL,
/// and a directory has no media type; and a target inside the transfer's
/// directory comes after the directory target it is placed in, or is
/// placed directly in the request's base directory.
pub open spec fn well_placed(
    v: Seq<DownloadTargetView>,
    req: ListingRequestView,
    listing: spec_fn(i64) -> ListFileResponse,
    i: int,
) -> bool {
    &&& v[i].transfer_hash == req.hash
    &&& v[i].target_type == TargetType::File ==> media_listed(listing, v[i].media_type)
    &&& v[i].target_type == TargetType::File && v[i].top_level ==> v[i].media_type is Some
    &&& (v[i].target_type == TargetType::Directory) == (v[i].from is None)
    &&& v[i].target_type == TargetType::Directory ==> v[i].media_type is None
    &&& (!v[i].top_level || (v[i].target_type == TargetType::File && req.transfer_name is Some)) ==> (
    (exists|j: int|
        0 <= j < i && v[j].target_type == TargetType::Directory && #[trigger] placed_in(
            v[i].to,
            v[j].to,
        )) || (!req.top_level && placed_in(v[i].to, req.base_path)))
}

proof fn lemma_collected(
    req: ListingRequestView,
    listing: spec_fn(i64) -> ListFileResponse,
    url: spec_fn(i64) -> Seq<char>,
    skip: Seq<Seq<char>>,
    depth: nat,
)
    requires
        !req.top_level ==> req.transfer_name is None,
        names_relative(listing),
    ensures
        forall|i: int|
            0 <= i < collected_targets(req, listing, url, skip, depth).len() ==> well_placed(
                collected_targets(req, listing, url, skip, depth),
                req,
                listing,
                i,
            ),
        !req.top_level ==> forall|i: int|
            0 <= i < collected_targets(req, listing, url, skip, depth).len() ==> !(#[trigger] collected_targets(
                req,
                listing,
                url,
                skip,
                depth,
            )[i]).top_level,
    decreases depth, 0nat,
{
    if depth > 0 {
        let l = listing(req.file_id);
        let v = collected_targets(req, listing, url, skip, depth);
        match listing_plan(req, l.parent.id, l.parent.name@, l.parent.file_type@, file_ids(l.files@), skip) {
            ListingPlanView::Folder { directory, children } => {
                let to = directory.to;
                let rest = collected_children(children, listing, url, skip, (depth - 1) as nat);
                lemma_collected_children(children, listing, url, skip, (depth - 1) as nat, to, req.hash);
                assert forall|i: int| 0 <= i < v.len() implies well_placed(v, req, listing, i) by {
                    if i == 0 {
                        if !req.top_level {
                            assert(v[0].to == joined(req.base_path, l.parent.name@));
                        }
                    } else {
                        assert(v[i] == rest[i - 1]);
                        if exists|j: int|
                            0 <= j < i - 1 && rest[j].target_type == TargetType::Directory
                                && #[trigger] placed_in(rest[i - 1].to, rest[j].to) {
                            let j = choose|j: int|
                                0 <= j < i - 1 && rest[j].target_type == TargetType::Directory
                                    && #[trigger] placed_in(rest[i - 1].to, rest[j].to);
                            assert(v[j + 1] == rest[j]);
                            assert(placed_in(v[i].to, v[j + 1].to));
                        } else {
                            assert(placed_in(v[i].to, v[0].to));
                        }
                    }
                }
            },
            ListingPlanView::File { wrapper, file } => {
                let name = l.parent.name@;
                assert(file.media_type == listed_media(
                    listing(req.file_id).parent.name@,
                    listing(req.file_id).parent.file_type@,
                ));
                assert(media_listed(listing, file.media_type));
                match wrapper {
                    Some(w) => {
                        assert(v[1].to == joined(w.to, name));
                        assert(placed_in(v[1].to, v[0].to));
                    },
                    None => {
                        if !req.top_level {
                            assert(v[0].to == joined(req.base_path, name));
                        }
                    },
                }
            },
            _ => {},
        }
    }
}

proof fn lemma_collected_children(
    cs: Seq<ListingRequestView>,
    listing: spec_fn(i64) -> ListFileResponse,
    url: spec_fn(i64) -> Seq<char>,
    skip: Seq<Seq<char>>,
    depth: nat,
    dir: Seq<char>,
    hash: Seq<char>,
)
    requires
        forall|k: int|
            0 <= k < cs.len() ==> (#[trigger] cs[k]).base_path == dir && !cs[k].top_level
                && cs[k].transfer_name is None && cs[k].hash == hash,
        names_relative(listing),
    ensures
        ({
            let v = collected_children(cs, listing, url, skip, depth);
            forall|i: int|
                0 <= i < v.len() ==> {
                    &&& (#[trigger] v[i]).transfer_hash == hash
                    &&& v[i].target_type == TargetType::File ==> media_listed(listing, v[i].media_type)
                    &&& (v[i].target_type == TargetType::Directory) == (v[i].from is None)
                    &&& v[i].target_type == TargetType::Directory ==> v[i].media_type is None
                    &&& !v[i].top_level
                    &&& (exists|j: int|
                        0 <= j < i && v[j].target_type == TargetType::Directory && #[trigger] placed_in(
                            v[i].to,
                            v[j].to,
                        )) || placed_in(v[i].to, dir)
                }
        }),
    decreases depth, cs.len(),
{
    if cs.len() > 0 {
        let pre = cs.drop_last();
        let c = cs.last();
        lemma_collected_children(pre, listing, url, skip, depth, dir, hash);
        lemma_collected(c, listing, url, skip, depth);
        let a = collected_children(pre, listing, url, skip, depth);
        let b = collected_targets(c, listing, url, skip, depth);
        let v = collected_children(cs, listing, url, skip, depth);
        assert(v == a + b);
        assert forall|i: int| 0 <= i < v.len() implies {
            &&& (#[trigger] v[i]).transfer_hash == hash
            &&& v[i].target_type == TargetType::File ==> media_listed(listing, v[i].media_type)
            &&& (v[i].target_type == TargetType::Directory) == (v[i].from is None)
            &&& v[i].target_type == TargetType::Directory ==> v[i].media_type is None
            &&& !v[i].top_level
            &&& (exists|j: int|
                0 <= j < i && v[j].target_type == TargetType::Directory && #[trigger] placed_in(
                    v[i].to,
                    v[j].to,
                )) || placed_in(v[i].to, dir)
        } by {
            if i < a.len() {
                assert(v[i] == a[i]);
                if exists|j: int|
                    0 <= j < i && a[j].target_type == TargetType::Directory && #[trigger] placed_in(
                        a[i].to,
                        a[j].to,
                    ) {
                    let j = choose|j: int|
                        0 <= j < i && a[j].target_type == TargetType::Directory && #[trigger] placed_in(
                            a[i].to,
                            a[j].to,
                        );
                    assert(v[j] == a[j]);
                }
            } else {
                let k = i - a.len();
                assert(v[i] == b[k]);
                assert(well_placed(b, c, listing, k));
                if exists|j: int|
                    0 <= j < k && b[j].target_type == TargetType::Directory && #[trigger] placed_in(
                        b[k].to,
                        b[j].to,
                    ) {
                    let j = choose|j: int|
                        0 <= j < k && b[j].target_type == TargetType::Directory && #[trigger] placed_in(
                            b[k].to,
                            b[j].to,
                        );
                    assert(v[j + a.len()] == b[j]);
                }
            }
        }
    }
}

/// What the walk of a transfer collects: every target carries the
/// transfer's hash; a file target carries the media type that put.io's
/// listing gives its entry (by file type, else by name), always one for a
/// file at the top of the transfer, none for the other files of a folder
/// that are neither audio, video nor subtitles; a target is a directory
/// exactly when it has no download URL, and a directory has no media type; every target other than the
/// transfer's own directory comes after the directory target it is placed
/// in. (An entry name starting with `/` would escape its directory, so the
/// law is stated for listings without one.)
pub proof fn law_collected_targets(
    req: ListingRequestView,
    listing: spec_fn(i64) -> ListFileResponse,
    url: spec_fn(i64) -> Seq<char>,
    skip: Seq<Seq<char>>,
    depth: nat,
)
    requires
        req.top_level,
        req.transfer_name is Some,
        names_relative(listing),
    ensures
        ({
            let v = collected_targets(req, listing, url, skip, depth);
            forall|i: int|
                0 <= i < v.len() ==> {
                    &&& (#[trigger] v[i]).transfer_hash == req.hash
                    &&& v[i].target_type == TargetType::File ==> media_listed(listing, v[i].media_type)
                    &&& v[i].target_type == TargetType::File && v[i].top_level ==> v[i].media_type is Some
                    &&& (v[i].target_type == TargetType::Directory) == (v[i].from is None)
                    &&& v[i].target_type == TargetType::Directory ==> v[i].media_type is None
                    &&& (!v[i].top_level || v[i].target_type == TargetType::File) ==> exists|j: int|
                        0 <= j < i && v[j].target_type == TargetType::Directory && #[trigger] placed_in(
                            v[i].to,
                            v[j].to,
                        )
                }
        }),
{
    lemma_collected(req, listing, url, skip, depth);
    let v = collected_targets(req, listing, url, skip, depth);
    assert forall|i: int| 0 <= i < v.len() implies {
        &&& (#[trigger] v[i]).transfer_hash == req.hash
        &&& v[i].target_type == TargetType::File ==> media_listed(listing, v[i].media_type)
        &&& v[i].target_type == TargetType::File && v[i].top_level ==> v[i].media_type is Some
        &&& (v[i].target_type == TargetType::Directory) == (v[i].from is None)
        &&& v[i].target_type == TargetType::Directory ==> v[i].media_type is None
        &&& (!v[i].top_level || v[i].target_type == TargetType::File) ==> exists|j: int|
            0 <= j < i && v[j].target_type == TargetType::Directory && #[trigger] placed_in(
                v[i].to,
                v[j].to,
            )
    } by {
        assert(well_placed(v, req, listing, i));
    }
}

} // verus!

verus! {

/// A put.io entry fetched while walking a transfer: the id that was listed,
/// its listing and, for a file to download, its download URL.
#[derive(Debug)]
pub struct FetchedEntry {
    pub file_id: i64,
    pub listing: ListFileResponse,
    pub url: Option<String>,
}

/// The entry fetched last for put.io id `id`.
pub open spec fn fetched_entry(table: Seq<FetchedEntry>, id: i64) -> Option<FetchedEntry>
    decreases table.len(),
{
    if table.len() == 0 {
        None
    } else if table.last().file_id == id {
        Some(table.last())
    } else {
        fetched_entry(table.drop_last(), id)
    }
}

/// The targets of a walk from `req` over the fetched entries: as
/// `collected_targets` walks put.io, `None` when an entry or a download URL
/// that the walk needs was not fetched, or the walk goes deeper than `depth`.
pub open spec fn gathered(
    req: ListingRequestView,
    table: Seq<FetchedEntry>,
    skip: Seq<Seq<char>>,
    depth: nat,
) -> Option<Seq<DownloadTargetView>>
    decreases depth, 0nat,
{
    if depth == 0 {
        None
    } else {
        match fetched_entry(table, req.file_id) {
            None => None,
            Some(e) => {
                let l = e.listing;
                match listing_plan(req, l.parent.id, l.parent.name@, l.parent.file_type@, file_ids(l.files@), skip) {
                    ListingPlanView::Folder { directory, children } => match gathered_children(
                        children,
                        table,
                        skip,
                        (depth - 1) as nat,
                    ) {
                        Some(r) => Some(seq![directory] + r),
                        None => None,
                    },
                    ListingPlanView::File { wrapper, file } => match e.url {
                        Some(u) => Some(
                            match wrapper {
                                Some(w) => seq![w, fetched_target(file, u@)],
                                None => seq![fetched_target(file, u@)],
                            },
                        ),
                        None => None,
                    },
                    _ => Some(Seq::<DownloadTargetView>::empty()),
                }
            },
        }
    }
}

/// The targets gathered from each request in turn.
pub open spec fn gathered_children(
    cs: Seq<ListingRequestView>,
    table: Seq<FetchedEntry>,
    skip: Seq<Seq<char>>,
    depth: nat,
) -> Option<Seq<DownloadTargetView>>
    decreases depth, cs.len(),
{
    if cs.len() == 0 {
        Some(Seq::<DownloadTargetView>::empty())
    } else {
        match (
            gathered_children(cs.drop_last(), table, skip, depth),
            gathered(cs.last(), table, skip, depth),
        ) {
            (Some(a), Some(b)) => Some(a + b),
            _ => None,
        }
    }
}

/// put.io's listings as the fetched entries give them.
pub open spec fn listing_of(table: Seq<FetchedEntry>) -> spec_fn(i64) -> ListFileResponse {
    |id: i64| fetched_entry(table, id)->0.listing
}

/// The download URLs as the fetched entries give them.
pub open spec fn url_of(table: Seq<FetchedEntry>) -> spec_fn(i64) -> Seq<char> {
    |id: i64| fetched_entry(table, id)->0.url->0@
}

proof fn lemma_gathered(req: ListingRequestView, table: Seq<FetchedEntry>, skip: Seq<Seq<char>>, depth: nat)
    ensures
        gathered(req, table, skip, depth) matches Some(v) ==> v == collected_targets(
            req,
            listing_of(table),
            url_of(table),
            skip,
            depth,
        ),
    decreases depth, 0nat,
{
    if depth > 0 {
        match fetched_entry(table, req.file_id) {
            None => {},
            Some(e) => {
                let l = e.listing;
                assert(listing_of(table)(req.file_id) == l);
                match listing_plan(req, l.parent.id, l.parent.name@, l.parent.file_type@, file_ids(l.files@), skip) {
                    ListingPlanView::Folder { directory, children } => {
                        lemma_gathered_children(children, table, skip, (depth - 1) as nat);
                    },
                    ListingPlanView::File { wrapper, file } => {
                        if e.url is Some {
                            assert(url_of(table)(req.file_id) == e.url->0@);
                        }
                    },
                    _ => {},
                }
            },
        }
    }
}

proof fn lemma_gathered_children(
    cs: Seq<ListingRequestView>,
    table: Seq<FetchedEntry>,
    skip: Seq<Seq<char>>,
    depth: nat,
)
    ensures
        gathered_children(cs, table, skip, depth) matches Some(v) ==> v == collected_children(
            cs,
            listing_of(table),
            url_of(table),
            skip,
            depth,
        ),
    decreases depth, cs.len(),
{
    if cs.len() > 0 {
        lemma_gathered_children(cs.drop_last(), table, skip, depth);
        lemma_gathered(cs.last(), table, skip, depth);
    }
}

/// Once gathering a prefix of the requests fails, gathering all of them
/// fails.
proof fn lemma_gathered_children_none(
    cs: Seq<ListingRequestView>,
    table: Seq<FetchedEntry>,
    skip: Seq<Seq<char>>,
    depth: nat,
    k: int,
)
    requires
        0 <= k <= cs.len(),
        gathered_children(cs.take(k), table, skip, depth) is None,
    ensures
        gathered_children(cs, table, skip, depth) is None,
    decreases cs.len(),
{
    if k == cs.len() {
        assert(cs.take(k) =~= cs);
    } else {
        assert(cs.drop_last().take(k) =~= cs.take(k));
        lemma_gathered_children_none(cs.drop_last(), table, skip, depth, k);
    }
}

/// What gathering from the fetched entries gives is what the walk of
/// put.io collects, so the law of collected targets holds of it.
pub proof fn law_gathered_targets(
    req: ListingRequestView,
    table: Seq<FetchedEntry>,
    skip: Seq<Seq<char>>,
    depth: nat,
)
    ensures
        gathered(req, table, skip, depth) matches Some(v) ==> v == collected_targets(
            req,
            listing_of(table),
            url_of(table),
            skip,
            depth,
        ),
{
    lemma_gathered(req, table, skip, depth);
}

fn find_entry(table: &Vec<FetchedEntry>, id: i64) -> (r: Option<usize>)
    ensures
        match r {
            Some(k) => k < table@.len() && fetched_entry(table@, id) == Some(table@[k as int]),
            None => fetched_entry(table@, id) is None,
        },
{
    let mut k = table.len();
    assert(table@.take(k as int) =~= table@);
    while k > 0
        invariant
            k <= table@.len(),
            fetched_entry(table@, id) == fetched_entry(table@.take(k as int), id),
        decreases k,
    {
        assert(table@.take(k as int).drop_last() =~= table@.take(k - 1));
        if table[k - 1].file_id == id {
            return Some(k - 1);
        }
        k -= 1;
    }
    None
}

/// Gathers the targets of a walk from `req` over the fetched entries:
/// exactly `gathered`, so what it returns is what the walk of put.io
/// collects (`law_gathered_targets`).
pub fn gather_targets(
    req: &ListingRequest,
    table: &Vec<FetchedEntry>,
    skip_directories: &Vec<String>,
    depth: u64,
) -> (r: Option<Vec<DownloadTarget>>)
    ensures
        match r {
            Some(v) => gathered(req@, table@, text_views(skip_directories@), depth as nat) == Some(
                v@.map_values(|t: DownloadTarget| t@),
            ),
            None => gathered(req@, table@, text_views(skip_directories@), depth as nat) is None,
        },
    decreases depth,
{
    let ghost skip = text_views(skip_directories@);
    if depth == 0 {
        return None;
    }
    let k = match find_entry(table, req.file_id) {
        None => {
            return None;
        },
        Some(k) => k,
    };
    let e = &table[k];
    let plan = req.plan(&e.listing, skip_directories);
    match plan {
        ListingPlan::Folder { directory, children } => {
            let ghost cviews = children@.map_values(|c: ListingRequest| c@);
            let ghost dview = directory@;
            let mut out: Vec<DownloadTarget> = Vec::new();
            out.push(directory);
            let mut i: usize = 0;
            assert(cviews.take(0) =~= Seq::<ListingRequestView>::empty());
            assert(gathered(req@, table@, skip, depth as nat) == (match gathered_children(
                cviews,
                table@,
                skip,
                (depth - 1) as nat,
            ) {
                Some(r) => Some(seq![dview] + r),
                None => None,
            }));
            while i < children.len()
                invariant
                    gathered(req@, table@, skip, depth as nat) == (match gathered_children(
                        cviews,
                        table@,
                        skip,
                        (depth - 1) as nat,
                    ) {
                        Some(r) => Some(seq![dview] + r),
                        None => None,
                    }),
                    i <= children@.len(),
                    cviews == children@.map_values(|c: ListingRequest| c@),
                    depth > 0,
                    skip == text_views(skip_directories@),
                    gathered_children(cviews.take(i as int), table@, skip, (depth - 1) as nat) matches Some(
                        tail,
                    ) && out@.map_values(|t: DownloadTarget| t@) == seq![dview] + tail,
                decreases children.len() - i,
            {
                assert(cviews.take(i + 1).drop_last() =~= cviews.take(i as int));
                assert(cviews.take(i + 1).last() == children@[i as int]@);
                match gather_targets(&children[i], table, skip_directories, depth - 1) {
                    None => {
                        proof {
                            lemma_gathered_children_none(cviews, table@, skip, (depth - 1) as nat, i + 1);
                        }
                        return None;
                    },
                    Some(v) => {
                        let mut v = v;
                        let ghost before = out@;
                        let ghost added = v@;
                        out.append(&mut v);
                        proof {
                            assert(out@ == before + added);
                            assert(out@.map_values(|t: DownloadTarget| t@) =~= before.map_values(
                                |t: DownloadTarget| t@,
                            ) + added.map_values(|t: DownloadTarget| t@));
                        }
                    },
                }
                i += 1;
            }
            assert(cviews.take(children@.len() as int) =~= cviews);
            Some(out)
        },
        ListingPlan::File { wrapper, file } => match &e.url {
            Some(u) => Some(file_targets(wrapper, file, u.clone())),
            None => None,
        },
        _ => Some(Vec::new()),
    }
}

} // verus!

verus! {

/// put.io's folder structure is kept: whatever the level, the children of a
/// downloaded folder are listed below that folder's own directory target (as
/// entries further down, of the same transfer), and an entry below the top
/// is placed in its base directory under its own name.
pub proof fn law_folder_structure_kept(
    req: ListingRequestView,
    id: i64,
    name: Seq<char>,
    file_type: Seq<char>,
    child_ids: Seq<i64>,
    skip: Seq<Seq<char>>,
)
    ensures
        match listing_plan(req, id, name, file_type, child_ids, skip) {
            ListingPlanView::Folder { directory, children } => {
                &&& children.len() == child_ids.len()
                &&& forall|k: int|
                    0 <= k < children.len() ==> {
                        &&& (#[trigger] children[k]).base_path == directory.to
                        &&& children[k].file_id == child_ids[k]
                        &&& !children[k].top_level
                        &&& children[k].transfer_name is None
                        &&& children[k].hash == req.hash
                        &&& children[k].category == req.category
                    }
                &&& !req.top_level ==> directory.to == joined(req.base_path, name)
                &&& directory.target_type == TargetType::Directory
                &&& directory.transfer_hash == req.hash
            },
            ListingPlanView::File { wrapper, file } => {
                &&& !req.top_level ==> file.to == joined(req.base_path, name) && wrapper is None
                &&& file.file_id == id
                &&& file.transfer_hash == req.hash
            },
            _ => true,
        },
{
}

/// A transfer counts as imported only when every media file among its
/// targets, at the top or further down, was confirmed by some application:
/// one media file with no confirmation keeps it from counting as imported,
/// and confirmations for all of them make it count.
pub proof fn law_import_waits_for_every_media_file(
    targets: Seq<DownloadTarget>,
    verdicts: Seq<Vec<bool>>,
)
    ensures
        (exists|i: int|
            0 <= i < targets.len() && (#[trigger] targets[i]).target_type == TargetType::File
                && targets[i].media_type is Some && forall|j: int|
                0 <= j < verdicts[i]@.len() ==> !verdicts[i]@[j]) ==> !all_files_imported(
            targets,
            verdicts,
        ),
        (forall|i: int|
            0 <= i < targets.len() && (#[trigger] targets[i]).target_type == TargetType::File
                && targets[i].media_type is Some ==> exists|j: int|
                0 <= j < verdicts[i]@.len() && verdicts[i]@[j]) ==> all_files_imported(
            targets,
            verdicts,
        ),
{
    if exists|i: int|
        0 <= i < targets.len() && (#[trigger] targets[i]).target_type == TargetType::File
            && targets[i].media_type is Some && forall|j: int|
            0 <= j < verdicts[i]@.len() ==> !verdicts[i]@[j] {
        let i = choose|i: int|
            0 <= i < targets.len() && (#[trigger] targets[i]).target_type == TargetType::File
                && targets[i].media_type is Some && forall|j: int|
                0 <= j < verdicts[i]@.len() ==> !verdicts[i]@[j];
        assert(!any_true(verdicts[i]@));
    }
    if forall|i: int|
        0 <= i < targets.len() && (#[trigger] targets[i]).target_type == TargetType::File
            && targets[i].media_type is Some ==> exists|j: int|
            0 <= j < verdicts[i]@.len() && verdicts[i]@[j] {
        assert forall|i: int|
            0 <= i < targets.len() && is_media_file(targets[i]) implies any_true(
                #[trigger] verdicts[i]@,
            ) by {
            assert(targets[i].target_type == TargetType::File && targets[i].media_type is Some);
        }
    }
}

} // verus!
